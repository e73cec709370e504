use vstd::prelude::*;

verus! {

/// The state of one job run.
#[derive(Clone, Copy, Debug, PartialEq, Eq, Structural)]
pub enum JobStatus {
    Pending,
    Running,
    Succeeded,
    Failed,
    Cancelled,
    Skipped,
}

/// The aggregate state of one pipeline run.
#[derive(Clone, Copy, Debug, PartialEq, Eq, Structural)]
pub enum PipelineStatus {
    Pending,
    Running,
    Completed,
    Failed,
    Cancelled,
}

/// The lower-case name under which a job status is stored.
pub open spec fn job_status_name(s: JobStatus) -> Seq<char> {
    match s {
        JobStatus::Pending => seq!['p', 'e', 'n', 'd', 'i', 'n', 'g'],
        JobStatus::Running => seq!['r', 'u', 'n', 'n', 'i', 'n', 'g'],
        JobStatus::Succeeded => seq!['s', 'u', 'c', 'c', 'e', 'e', 'd', 'e', 'd'],
        JobStatus::Failed => seq!['f', 'a', 'i', 'l', 'e', 'd'],
        JobStatus::Cancelled => seq!['c', 'a', 'n', 'c', 'e', 'l', 'l', 'e', 'd'],
        JobStatus::Skipped => seq!['s', 'k', 'i', 'p', 'p', 'e', 'd'],
    }
}

/// The lower-case name under which a pipeline status is stored.
pub open spec fn pipeline_status_name(s: PipelineStatus) -> Seq<char> {
    match s {
        PipelineStatus::Pending => seq!['p', 'e', 'n', 'd', 'i', 'n', 'g'],
        PipelineStatus::Running => seq!['r', 'u', 'n', 'n', 'i', 'n', 'g'],
        PipelineStatus::Completed => seq!['c', 'o', 'm', 'p', 'l', 'e', 't', 'e', 'd'],
        PipelineStatus::Failed => seq!['f', 'a', 'i', 'l', 'e', 'd'],
        PipelineStatus::Cancelled => seq!['c', 'a', 'n', 'c', 'e', 'l', 'l', 'e', 'd'],
    }
}

/// The job status stored under `name`, if any.
pub open spec fn job_status_named(name: Seq<char>) -> Option<JobStatus> {
    if name == job_status_name(JobStatus::Pending) {
        Some(JobStatus::Pending)
    } else if name == job_status_name(JobStatus::Running) {
        Some(JobStatus::Running)
    } else if name == job_status_name(JobStatus::Succeeded) {
        Some(JobStatus::Succeeded)
    } else if name == job_status_name(JobStatus::Failed) {
        Some(JobStatus::Failed)
    } else if name == job_status_name(JobStatus::Cancelled) {
        Some(JobStatus::Cancelled)
    } else if name == job_status_name(JobStatus::Skipped) {
        Some(JobStatus::Skipped)
    } else {
        None
    }
}

/// The pipeline status stored under `name`, if any.
pub open spec fn pipeline_status_named(name: Seq<char>) -> Option<PipelineStatus> {
    if name == pipeline_status_name(PipelineStatus::Pending) {
        Some(PipelineStatus::Pending)
    } else if name == pipeline_status_name(PipelineStatus::Running) {
        Some(PipelineStatus::Running)
    } else if name == pipeline_status_name(PipelineStatus::Completed) {
        Some(PipelineStatus::Completed)
    } else if name == pipeline_status_name(PipelineStatus::Failed) {
        Some(PipelineStatus::Failed)
    } else if name == pipeline_status_name(PipelineStatus::Cancelled) {
        Some(PipelineStatus::Cancelled)
    } else {
        None
    }
}

impl JobStatus {
    /// Pending and Running are the only states a job can still leave.
    pub open spec fn spec_is_terminal(&self) -> bool {
        *self != JobStatus::Pending && *self != JobStatus::Running
    }

    #[verifier::when_used_as_spec(spec_is_terminal)]
    pub fn is_terminal(&self) -> (r: bool)
        ensures
            r == self.spec_is_terminal(),
    {
        !matches!(self, JobStatus::Pending | JobStatus::Running)
    }

    /// The stored name of the status.
    pub fn as_str(&self) -> (r: &'static str)
        ensures
            r@ == job_status_name(*self),
    {
        match self {
            JobStatus::Pending => {
                proof { reveal_strlit("pending"); }
                "pending"
            },
            JobStatus::Running => {
                proof { reveal_strlit("running"); }
                "running"
            },
            JobStatus::Succeeded => {
                proof { reveal_strlit("succeeded"); }
                "succeeded"
            },
            JobStatus::Failed => {
                proof { reveal_strlit("failed"); }
                "failed"
            },
            JobStatus::Cancelled => {
                proof { reveal_strlit("cancelled"); }
                "cancelled"
            },
            JobStatus::Skipped => {
                proof { reveal_strlit("skipped"); }
                "skipped"
            },
        }
    }

    /// The stored name of the status, as an owned string.
    pub fn to_string(&self) -> (r: String)
        ensures
            r@ == job_status_name(*self),
    {
        self.as_str().to_owned()
    }

    /// Reads a stored status name; an unknown name is rejected with `None`.
    pub fn parse(name: &str) -> (r: Option<JobStatus>)
        ensures
            r == job_status_named(name@),
    {
        let n = name.to_owned();
        if n == JobStatus::Pending.to_string() {
            Some(JobStatus::Pending)
        } else if n == JobStatus::Running.to_string() {
            Some(JobStatus::Running)
        } else if n == JobStatus::Succeeded.to_string() {
            Some(JobStatus::Succeeded)
        } else if n == JobStatus::Failed.to_string() {
            Some(JobStatus::Failed)
        } else if n == JobStatus::Cancelled.to_string() {
            Some(JobStatus::Cancelled)
        } else if n == JobStatus::Skipped.to_string() {
            Some(JobStatus::Skipped)
        } else {
            None
        }
    }
}

impl PipelineStatus {
    /// Completed, Failed and Cancelled end a run.
    pub open spec fn spec_is_terminal(&self) -> bool {
        *self != PipelineStatus::Pending && *self != PipelineStatus::Running
    }

    #[verifier::when_used_as_spec(spec_is_terminal)]
    pub fn is_terminal(&self) -> (r: bool)
        ensures
            r == self.spec_is_terminal(),
    {
        !matches!(self, PipelineStatus::Pending | PipelineStatus::Running)
    }

    /// The stored name of the status.
    pub fn as_str(&self) -> (r: &'static str)
        ensures
            r@ == pipeline_status_name(*self),
    {
        match self {
            PipelineStatus::Pending => {
                proof { reveal_strlit("pending"); }
                "pending"
            },
            PipelineStatus::Running => {
                proof { reveal_strlit("running"); }
                "running"
            },
            PipelineStatus::Completed => {
                proof { reveal_strlit("completed"); }
                "completed"
            },
            PipelineStatus::Failed => {
                proof { reveal_strlit("failed"); }
                "failed"
            },
            PipelineStatus::Cancelled => {
                proof { reveal_strlit("cancelled"); }
                "cancelled"
            },
        }
    }

    /// The stored name of the status, as an owned string.
    pub fn to_string(&self) -> (r: String)
        ensures
            r@ == pipeline_status_name(*self),
    {
        self.as_str().to_owned()
    }

    /// Reads a stored status name; an unknown name is rejected with `None`.
    pub fn parse(name: &str) -> (r: Option<PipelineStatus>)
        ensures
            r == pipeline_status_named(name@),
    {
        let n = name.to_owned();
        if n == PipelineStatus::Pending.to_string() {
            Some(PipelineStatus::Pending)
        } else if n == PipelineStatus::Running.to_string() {
            Some(PipelineStatus::Running)
        } else if n == PipelineStatus::Completed.to_string() {
            Some(PipelineStatus::Completed)
        } else if n == PipelineStatus::Failed.to_string() {
            Some(PipelineStatus::Failed)
        } else if n == PipelineStatus::Cancelled.to_string() {
            Some(PipelineStatus::Cancelled)
        } else {
            None
        }
    }
}

} // verus!
