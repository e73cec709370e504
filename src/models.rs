use vstd::prelude::*;
use crate::status::{JobStatus, PipelineStatus};

verus! {

/// A pipeline definition: named stages, run in order.
#[derive(Debug)]
pub struct Pipeline {
    pub name: String,
    pub stages: Vec<Stage>,
}

/// A named group of jobs, run in order.
#[derive(Debug)]
pub struct Stage {
    pub name: String,
    pub jobs: Vec<Job>,
}

/// One job of a pipeline definition, as sent to a worker.
#[derive(Debug, Clone)]
pub struct Job {
    pub name: String,
    pub repository: String,
    pub branch: String,
    pub commands: Vec<String>,
    pub inputs: Vec<JobInput>,
    pub outputs: Vec<JobOutput>,
}

/// A named input value of a job.
#[derive(Debug, Clone)]
pub struct JobInput {
    pub name: String,
    pub value: String,
}

/// A named output path of a job.
#[derive(Debug, Clone)]
pub struct JobOutput {
    pub name: String,
    pub path: String,
}

/// A named payload produced by a job.
#[derive(Debug)]
pub struct JobArtifact {
    pub name: String,
    pub content: String,
}

/// What a worker reports for one job.
#[derive(Debug)]
pub struct JobResult {
    pub id: String,
    pub status: JobStatus,
    pub output: String,
    pub artifacts: Vec<JobArtifact>,
}

/// A status report for one job, as received from outside the engine.
pub struct JobUpdate {
    pub status: JobStatus,
    pub output: Option<String>,
    pub artifacts: Option<Vec<JobArtifact>>,
}

/// One execution of a pipeline definition. Times are whole seconds since
/// the Unix epoch.
#[derive(Debug)]
pub struct PipelineRun {
    pub id: String,
    pub pipeline_name: String,
    pub repository: String,
    pub branch: String,
    pub status: PipelineStatus,
    pub start_time: i64,
    pub end_time: Option<i64>,
    pub duration_seconds: Option<i64>,
    pub current_job_index: i32,
    pub total_jobs: i32,
}

/// One execution of one job at a fixed position of a pipeline run.
#[derive(Debug)]
pub struct JobRun {
    pub id: String,
    pub pipeline_run_id: String,
    pub job_name: String,
    pub job_index: i32,
    pub status: JobStatus,
    pub start_time: i64,
    pub end_time: Option<i64>,
    pub duration_seconds: Option<i64>,
    pub output: Option<String>,
}

/// A job run together with the artifacts saved for it.
#[derive(Debug)]
pub struct JobDetails {
    pub id: String,
    pub pipeline_run_id: String,
    pub name: String,
    pub index: i32,
    pub status: JobStatus,
    pub start_time: i64,
    pub end_time: Option<i64>,
    pub duration_seconds: Option<i64>,
    pub output: Option<String>,
    pub artifacts: Vec<JobArtifact>,
}

/// A repository and branch registered for builds.
#[derive(Debug)]
pub struct Target {
    pub name: String,
    pub repository: String,
    pub branch: String,
}

/// The list of registered targets.
#[derive(Debug)]
pub struct Targets {
    pub targets: Vec<Target>,
}

/// A request to register a target; without a name, the repository's name is used.
#[derive(Debug)]
pub struct AddTargetRequest {
    pub repository: String,
    pub branch: String,
    pub name: Option<String>,
}

/// A request to build a repository and branch.
#[derive(Debug)]
pub struct BuildRequest {
    pub repository: String,
    pub branch: String,
}

impl PipelineRun {
    /// A copy of the record.
    pub fn snapshot(&self) -> (r: PipelineRun)
        ensures
            r == *self,
    {
        PipelineRun {
            id: self.id.clone(),
            pipeline_name: self.pipeline_name.clone(),
            repository: self.repository.clone(),
            branch: self.branch.clone(),
            status: self.status,
            start_time: self.start_time,
            end_time: self.end_time,
            duration_seconds: self.duration_seconds,
            current_job_index: self.current_job_index,
            total_jobs: self.total_jobs,
        }
    }
}

impl JobRun {
    /// A copy of the record.
    pub fn snapshot(&self) -> (r: JobRun)
        ensures
            r == *self,
    {
        JobRun {
            id: self.id.clone(),
            pipeline_run_id: self.pipeline_run_id.clone(),
            job_name: self.job_name.clone(),
            job_index: self.job_index,
            status: self.status,
            start_time: self.start_time,
            end_time: self.end_time,
            duration_seconds: self.duration_seconds,
            output: match &self.output {
                Some(o) => Some(o.clone()),
                None => None,
            },
        }
    }
}

} // verus!
