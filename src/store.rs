use vstd::prelude::*;
use crate::aggregate::{aggregate, aggregate_status};
use crate::models::{JobRun, PipelineRun};
use crate::status::{JobStatus, PipelineStatus};

verus! {

/// Every time the store holds is at least zero and below this bound, in
/// seconds since the Unix epoch.
pub const TIME_LIMIT: i64 = 10_000_000_000_000;

pub open spec fn valid_time(t: i64) -> bool {
    0 <= t < TIME_LIMIT
}

/// Failures of a store operation.
#[derive(Clone, Copy, Debug, PartialEq, Eq, Structural)]
pub enum StoreError {
    /// The referenced run, job or artifact owner does not exist.
    NotFound,
    /// The store could not record the entity (its new id is already taken).
    Storage,
}

/// A saved artifact of a job run.
#[derive(Debug)]
pub struct ArtifactRecord {
    pub id: String,
    pub job_run_id: String,
    pub name: String,
    pub content: String,
    pub created_at: i64,
}

impl ArtifactRecord {
    /// A copy of the record.
    pub fn snapshot(&self) -> (r: ArtifactRecord)
        ensures
            r == *self,
    {
        ArtifactRecord {
            id: self.id.clone(),
            job_run_id: self.job_run_id.clone(),
            name: self.name.clone(),
            content: self.content.clone(),
            created_at: self.created_at,
        }
    }
}

/// Pipeline runs, job runs and artifacts, each table in insertion order.
#[derive(Debug)]
pub struct RunStore {
    pub runs: Vec<PipelineRun>,
    pub jobs: Vec<JobRun>,
    pub artifacts: Vec<ArtifactRecord>,
}

/// End time and duration are present together, and the duration is the
/// time from start to end.
pub open spec fn timing_wf(start: i64, end: Option<i64>, duration: Option<i64>) -> bool {
    &&& valid_time(start)
    &&& (end is Some) == (duration is Some)
    &&& end is Some ==> valid_time(end->0) && duration->0 == end->0 - start
}

/// A run is well formed when its timing is consistent, its job index lies
/// within its total, and it has an end time exactly when it has finished.
pub open spec fn run_wf(r: PipelineRun) -> bool {
    &&& timing_wf(r.start_time, r.end_time, r.duration_seconds)
    &&& 0 <= r.current_job_index <= r.total_jobs
    &&& (r.end_time is Some) == (r.status == PipelineStatus::Completed || r.status
        == PipelineStatus::Failed)
}

pub open spec fn job_wf(j: JobRun) -> bool {
    timing_wf(j.start_time, j.end_time, j.duration_seconds)
}

/// The text of an optional string.
pub open spec fn text_of(o: Option<String>) -> Option<Seq<char>> {
    match o {
        Some(s) => Some(s@),
        None => None,
    }
}

/// The position of the run with the given id.
pub open spec fn run_pos(runs: Seq<PipelineRun>, id: Seq<char>) -> Option<int> {
    if exists|i: int| 0 <= i < runs.len() && #[trigger] runs[i].id@ == id {
        Some(choose|i: int| 0 <= i < runs.len() && #[trigger] runs[i].id@ == id)
    } else {
        None
    }
}

/// The position of the job run with the given id.
pub open spec fn job_pos(jobs: Seq<JobRun>, id: Seq<char>) -> Option<int> {
    if exists|i: int| 0 <= i < jobs.len() && #[trigger] jobs[i].id@ == id {
        Some(choose|i: int| 0 <= i < jobs.len() && #[trigger] jobs[i].id@ == id)
    } else {
        None
    }
}

pub open spec fn artifact_id_taken(arts: Seq<ArtifactRecord>, id: Seq<char>) -> bool {
    exists|i: int| 0 <= i < arts.len() && #[trigger] arts[i].id@ == id
}

/// A run as `create_pipeline_run` records it.
pub open spec fn is_new_run(
    r: PipelineRun,
    id: Seq<char>,
    name: Seq<char>,
    repository: Seq<char>,
    branch: Seq<char>,
    total_jobs: i32,
    now: i64,
) -> bool {
    &&& r.id@ == id
    &&& r.pipeline_name@ == name
    &&& r.repository@ == repository
    &&& r.branch@ == branch
    &&& r.status == PipelineStatus::Pending
    &&& r.start_time == now
    &&& r.end_time is None
    &&& r.duration_seconds is None
    &&& r.current_job_index == 0
    &&& r.total_jobs == total_jobs
}

/// A job run as `create_job_run` records it.
pub open spec fn is_new_job(
    j: JobRun,
    id: Seq<char>,
    run_id: Seq<char>,
    name: Seq<char>,
    job_index: i32,
    now: i64,
) -> bool {
    &&& j.id@ == id
    &&& j.pipeline_run_id@ == run_id
    &&& j.job_name@ == name
    &&& j.job_index == job_index
    &&& j.status == JobStatus::Pending
    &&& j.start_time == now
    &&& j.end_time is None
    &&& j.duration_seconds is None
    &&& j.output is None
}

/// An artifact as `save_job_artifact` records it.
pub open spec fn is_new_artifact(
    a: ArtifactRecord,
    id: Seq<char>,
    job_run_id: Seq<char>,
    name: Seq<char>,
    content: Seq<char>,
    now: i64,
) -> bool {
    &&& a.id@ == id
    &&& a.job_run_id@ == job_run_id
    &&& a.name@ == name
    &&& a.content@ == content
    &&& a.created_at == now
}

/// Relies on chrono::Utc::now and DateTime::timestamp: the current time in
/// whole seconds since the Unix epoch. `Utc::now` panics on a clock set
/// before the epoch, and a DateTime ends in the year 262143, well below
/// the bound.
#[verifier::external_body]
fn current_time() -> (r: i64)
    ensures
        valid_time(r),
{
    chrono::Utc::now().timestamp()
}

/// Relies on uuid::Uuid::new_v4 and its hyphenated text: a random identifier.
#[verifier::external_body]
fn fresh_id() -> (r: String) {
    uuid::Uuid::new_v4().to_string()
}

/// A run with the given id exists.
pub open spec fn has_run(runs: Seq<PipelineRun>, id: Seq<char>) -> bool {
    exists|k: int| 0 <= k < runs.len() && #[trigger] runs[k].id@ == id
}

/// A job run with the given id exists.
pub open spec fn has_job(jobs: Seq<JobRun>, id: Seq<char>) -> bool {
    exists|k: int| 0 <= k < jobs.len() && #[trigger] jobs[k].id@ == id
}

/// A job run of the run `run_id` already has job index `index`.
pub open spec fn index_taken(jobs: Seq<JobRun>, run_id: Seq<char>, index: i32) -> bool {
    exists|q: int|
        0 <= q < jobs.len() && (#[trigger] jobs[q]).pipeline_run_id@ == run_id && jobs[q].job_index
            == index
}

/// Referential integrity and per-run index uniqueness: every job run names
/// an existing run, every artifact an existing job run, and no two job runs
/// of one run share a job index.
pub open spec fn links(runs: Seq<PipelineRun>, jobs: Seq<JobRun>, arts: Seq<ArtifactRecord>) -> bool {
    &&& forall|i: int|
        #![trigger jobs[i]]
        0 <= i < jobs.len() ==> has_run(runs, jobs[i].pipeline_run_id@)
    &&& forall|i: int|
        #![trigger arts[i]]
        0 <= i < arts.len() ==> has_job(jobs, arts[i].job_run_id@)
    &&& forall|i: int, j: int|
        #![trigger jobs[i], jobs[j]]
        0 <= i < jobs.len() && 0 <= j < jobs.len() && jobs[i].pipeline_run_id@
            == jobs[j].pipeline_run_id@ && jobs[i].job_index == jobs[j].job_index ==> i == j
}

/// The links survive a step that keeps every existing id, owner and index in
/// place and adds only linked, uniquely indexed records.
proof fn links_kept(
    runs: Seq<PipelineRun>,
    jobs: Seq<JobRun>,
    arts: Seq<ArtifactRecord>,
    runs2: Seq<PipelineRun>,
    jobs2: Seq<JobRun>,
    arts2: Seq<ArtifactRecord>,
)
    requires
        links(runs, jobs, arts),
        runs.len() <= runs2.len(),
        forall|k: int| 0 <= k < runs.len() ==> (#[trigger] runs2[k]).id@ == runs[k].id@,
        jobs.len() <= jobs2.len(),
        forall|k: int|
            0 <= k < jobs.len() ==> (#[trigger] jobs2[k]).id@ == jobs[k].id@
                && jobs2[k].pipeline_run_id@ == jobs[k].pipeline_run_id@ && jobs2[k].job_index
                == jobs[k].job_index,
        arts.len() <= arts2.len(),
        forall|k: int| 0 <= k < arts.len() ==> (#[trigger] arts2[k]).job_run_id@ == arts[k].job_run_id@,
        forall|k: int|
            jobs.len() <= k < jobs2.len() ==> has_run(runs2, (#[trigger] jobs2[k]).pipeline_run_id@),
        forall|k: int, j: int|
            #![trigger jobs2[k], jobs2[j]]
            jobs.len() <= k < jobs2.len() && 0 <= j < jobs2.len() && j != k ==> jobs2[k].pipeline_run_id@
                != jobs2[j].pipeline_run_id@ || jobs2[k].job_index != jobs2[j].job_index,
        forall|k: int| arts.len() <= k < arts2.len() ==> has_job(jobs2, (#[trigger] arts2[k]).job_run_id@),
    ensures
        links(runs2, jobs2, arts2),
{
    assert forall|i: int| #![trigger jobs2[i]] 0 <= i < jobs2.len() implies has_run(
        runs2,
        jobs2[i].pipeline_run_id@,
    ) by {
        if i < jobs.len() {
            assert(has_run(runs, jobs[i].pipeline_run_id@));
            let k = choose|k: int| 0 <= k < runs.len() && #[trigger] runs[k].id@ == jobs[i].pipeline_run_id@;
            assert(runs2[k].id@ == runs[k].id@);
        }
    }
    assert forall|i: int| #![trigger arts2[i]] 0 <= i < arts2.len() implies has_job(
        jobs2,
        arts2[i].job_run_id@,
    ) by {
        if i < arts.len() {
            assert(arts2[i].job_run_id@ == arts[i].job_run_id@);
            assert(has_job(jobs, arts[i].job_run_id@));
            let k = choose|k: int| 0 <= k < jobs.len() && #[trigger] jobs[k].id@ == arts[i].job_run_id@;
            assert(jobs2[k].id@ == jobs[k].id@);
        }
    }
    assert forall|i: int, j: int|
        #![trigger jobs2[i], jobs2[j]]
        0 <= i < jobs2.len() && 0 <= j < jobs2.len() && jobs2[i].pipeline_run_id@
            == jobs2[j].pipeline_run_id@ && jobs2[i].job_index == jobs2[j].job_index implies i == j by {
        if i < jobs.len() && j < jobs.len() {
            assert(jobs2[i].pipeline_run_id@ == jobs[i].pipeline_run_id@);
            assert(jobs2[j].pipeline_run_id@ == jobs[j].pipeline_run_id@);
            assert(jobs[i].pipeline_run_id@ == jobs[j].pipeline_run_id@ && jobs[i].job_index == jobs[j].job_index);
        } else if i >= jobs.len() && i != j {
            assert(jobs2[i].pipeline_run_id@ != jobs2[j].pipeline_run_id@ || jobs2[i].job_index != jobs2[j].job_index);
        } else if j >= jobs.len() && i != j {
            assert(jobs2[j].pipeline_run_id@ != jobs2[i].pipeline_run_id@ || jobs2[j].job_index != jobs2[i].job_index);
        }
    }
}

impl RunStore {
    pub open spec fn wf(&self) -> bool {
        &&& forall|i: int| 0 <= i < self.runs@.len() ==> #[trigger] run_wf(self.runs@[i])
        &&& forall|i: int| 0 <= i < self.jobs@.len() ==> #[trigger] job_wf(self.jobs@[i])
        &&& forall|i: int|
            0 <= i < self.artifacts@.len() ==> valid_time(#[trigger] self.artifacts@[i].created_at)
        &&& forall|i: int, j: int|
            0 <= i < self.runs@.len() && 0 <= j < self.runs@.len() && #[trigger] self.runs@[i].id@
                == #[trigger] self.runs@[j].id@ ==> i == j
        &&& forall|i: int, j: int|
            0 <= i < self.jobs@.len() && 0 <= j < self.jobs@.len() && #[trigger] self.jobs@[i].id@
                == #[trigger] self.jobs@[j].id@ ==> i == j
        &&& forall|i: int, j: int|
            0 <= i < self.artifacts@.len() && 0 <= j < self.artifacts@.len()
                && #[trigger] self.artifacts@[i].id@ == #[trigger] self.artifacts@[j].id@ ==> i == j
        &&& links(self.runs@, self.jobs@, self.artifacts@)
    }

    /// An empty store.
    pub fn new() -> (r: RunStore)
        ensures
            r.wf(),
            r.runs@.len() == 0,
            r.jobs@.len() == 0,
            r.artifacts@.len() == 0,
    {
        RunStore { runs: Vec::new(), jobs: Vec::new(), artifacts: Vec::new() }
    }

    /// The position of the run with the given id.
    pub fn find_run(&self, id: &str) -> (r: Option<usize>)
        requires
            self.wf(),
        ensures
            r matches Some(i) ==> run_pos(self.runs@, id@) == Some(i as int),
            r is None ==> run_pos(self.runs@, id@) is None,
    {
        let key = id.to_owned();
        let mut i: usize = 0;
        while i < self.runs.len()
            invariant
                i <= self.runs@.len(),
                self.wf(),
                key@ == id@,
                forall|k: int| 0 <= k < i ==> #[trigger] self.runs@[k].id@ != id@,
            decreases self.runs@.len() - i,
        {
            if self.runs[i].id == key {
                proof {
                    assert(self.runs@[i as int].id@ == id@);
                    let c = choose|k: int| 0 <= k < self.runs@.len() && #[trigger] self.runs@[k].id@ == id@;
                    assert(self.runs@[c].id@ == self.runs@[i as int].id@);
                    assert(c == i);
                    assert(run_pos(self.runs@, id@) == Some(i as int));
                }
                return Some(i);
            }
            i += 1;
        }
        None
    }

    /// The position of the job run with the given id.
    pub fn find_job(&self, id: &str) -> (r: Option<usize>)
        requires
            self.wf(),
        ensures
            r matches Some(i) ==> job_pos(self.jobs@, id@) == Some(i as int),
            r is None ==> job_pos(self.jobs@, id@) is None,
    {
        let key = id.to_owned();
        let mut i: usize = 0;
        while i < self.jobs.len()
            invariant
                i <= self.jobs@.len(),
                self.wf(),
                key@ == id@,
                forall|k: int| 0 <= k < i ==> #[trigger] self.jobs@[k].id@ != id@,
            decreases self.jobs@.len() - i,
        {
            if self.jobs[i].id == key {
                proof {
                    assert(self.jobs@[i as int].id@ == id@);
                    let c = choose|k: int| 0 <= k < self.jobs@.len() && #[trigger] self.jobs@[k].id@ == id@;
                    assert(self.jobs@[c].id@ == self.jobs@[i as int].id@);
                    assert(c == i);
                    assert(job_pos(self.jobs@, id@) == Some(i as int));
                }
                return Some(i);
            }
            i += 1;
        }
        None
    }

    fn job_index_taken(&self, run_id: &str, index: i32) -> (r: bool)
        ensures
            r == index_taken(self.jobs@, run_id@, index),
    {
        let key = run_id.to_owned();
        let mut i: usize = 0;
        while i < self.jobs.len()
            invariant
                i <= self.jobs@.len(),
                key@ == run_id@,
                forall|k: int|
                    0 <= k < i ==> (#[trigger] self.jobs@[k]).pipeline_run_id@ != run_id@
                        || self.jobs@[k].job_index != index,
            decreases self.jobs@.len() - i,
        {
            if self.jobs[i].job_index == index && self.jobs[i].pipeline_run_id == key {
                assert(self.jobs@[i as int].pipeline_run_id@ == run_id@);
                return true;
            }
            i += 1;
        }
        false
    }

    fn artifact_taken(&self, id: &String) -> (r: bool)
        ensures
            r == artifact_id_taken(self.artifacts@, id@),
    {
        let mut i: usize = 0;
        while i < self.artifacts.len()
            invariant
                i <= self.artifacts@.len(),
                forall|k: int| 0 <= k < i ==> #[trigger] self.artifacts@[k].id@ != id@,
            decreases self.artifacts@.len() - i,
        {
            if self.artifacts[i].id == *id {
                return true;
            }
            i += 1;
        }
        false
    }
}

/// Records a new pending run under the given id and start time. An id that
/// is already taken fails with `Storage` and leaves the store as it was.
pub fn create_pipeline_run_at(
    store: &mut RunStore,
    id: String,
    now: i64,
    name: &str,
    repository: &str,
    branch: &str,
    total_jobs: i32,
) -> (r: Result<String, StoreError>)
    requires
        old(store).wf(),
        valid_time(now),
        total_jobs >= 0,
    ensures
        final(store).wf(),
        runs_advanced(old(store).runs@, final(store).runs@),
        final(store).jobs@ == old(store).jobs@,
        final(store).artifacts@ == old(store).artifacts@,
        run_pos(old(store).runs@, id@) is Some ==> r == Err::<String, StoreError>(StoreError::Storage)
            && final(store).runs@ == old(store).runs@,
        run_pos(old(store).runs@, id@) is None ==> r == Ok::<String, StoreError>(id)
            && final(store).runs@.len() == old(store).runs@.len() + 1
            && final(store).runs@.drop_last() == old(store).runs@
            && is_new_run(final(store).runs@.last(), id@, name@, repository@, branch@, total_jobs, now),
{
    if store.find_run(id.as_str()).is_some() {
        proof { advanced_by_update(old(store).runs@, old(store).runs@, 0, now, old(store).jobs@, false); }
        return Err(StoreError::Storage);
    }
    let run = PipelineRun {
        id: id.clone(),
        pipeline_name: name.to_owned(),
        repository: repository.to_owned(),
        branch: branch.to_owned(),
        status: PipelineStatus::Pending,
        start_time: now,
        end_time: None,
        duration_seconds: None,
        current_job_index: 0,
        total_jobs,
    };
    store.runs.push(run);
    proof {
        assert forall|i: int| 0 <= i < old(store).runs@.len() implies #[trigger] run_advanced(
            old(store).runs@[i],
            store.runs@[i],
        ) by {
            assert(store.runs@[i] == old(store).runs@[i]);
        }
        assert(final(store).runs@.drop_last() =~= old(store).runs@);
        assert forall|i: int, j: int|
            0 <= i < store.runs@.len() && 0 <= j < store.runs@.len() && #[trigger] store.runs@[i].id@
                == #[trigger] store.runs@[j].id@ implies i == j by {
            if i < old(store).runs@.len() && j == old(store).runs@.len() {
                assert(old(store).runs@[i].id@ == id@);
            }
            if j < old(store).runs@.len() && i == old(store).runs@.len() {
                assert(old(store).runs@[j].id@ == id@);
            }
        }
    }
    Ok(id)
}

/// Records a new pending run of `total_jobs` jobs, started now, under a fresh
/// random id. Fails with `Storage` when that id is already taken.
pub fn create_pipeline_run(
    store: &mut RunStore,
    name: &str,
    repository: &str,
    branch: &str,
    total_jobs: i32,
) -> (r: Result<String, StoreError>)
    requires
        old(store).wf(),
        total_jobs >= 0,
    ensures
        final(store).wf(),
        runs_advanced(old(store).runs@, final(store).runs@),
        final(store).jobs@ == old(store).jobs@,
        final(store).artifacts@ == old(store).artifacts@,
        r is Err ==> r == Err::<String, StoreError>(StoreError::Storage) && final(store).runs@
            == old(store).runs@,
        old(store).runs@.len() == 0 ==> r is Ok,
        r matches Ok(id) ==> run_pos(old(store).runs@, id@) is None
            && final(store).runs@.drop_last() == old(store).runs@
            && final(store).runs@.len() == old(store).runs@.len() + 1
            && is_new_run(
                final(store).runs@.last(),
                id@,
                name@,
                repository@,
                branch@,
                total_jobs,
                final(store).runs@.last().start_time,
            ) && valid_time(final(store).runs@.last().start_time),
{
    let id = fresh_id();
    let now = current_time();
    create_pipeline_run_at(store, id, now, name, repository, branch, total_jobs)
}

/// Records a new pending job run of an existing run under the given id and
/// start time. A missing run fails with `NotFound`; a taken id, or a job
/// index the run already has, with `Storage`. Either leaves the store as it
/// was.
pub fn create_job_run_at(
    store: &mut RunStore,
    id: String,
    now: i64,
    pipeline_run_id: &str,
    job_name: &str,
    job_index: i32,
) -> (r: Result<String, StoreError>)
    requires
        old(store).wf(),
        valid_time(now),
    ensures
        final(store).wf(),
        runs_advanced(old(store).runs@, final(store).runs@),
        final(store).runs@ == old(store).runs@,
        final(store).artifacts@ == old(store).artifacts@,
        run_pos(old(store).runs@, pipeline_run_id@) is None ==> r == Err::<String, StoreError>(
            StoreError::NotFound,
        ) && final(store).jobs@ == old(store).jobs@,
        run_pos(old(store).runs@, pipeline_run_id@) is Some && (job_pos(old(store).jobs@, id@) is Some
            || index_taken(old(store).jobs@, pipeline_run_id@, job_index)) ==> r == Err::<
            String,
            StoreError,
        >(StoreError::Storage) && final(store).jobs@ == old(store).jobs@,
        run_pos(old(store).runs@, pipeline_run_id@) is Some && job_pos(old(store).jobs@, id@) is None
            && !index_taken(old(store).jobs@, pipeline_run_id@, job_index) ==> r == Ok::<String, StoreError>(id) && final(store).jobs@.len() == old(store).jobs@.len()
            + 1 && final(store).jobs@.drop_last() == old(store).jobs@ && is_new_job(
            final(store).jobs@.last(),
            id@,
            pipeline_run_id@,
            job_name@,
            job_index,
            now,
        ),
{
    let k = match store.find_run(pipeline_run_id) {
        None => return Err(StoreError::NotFound),
        Some(k) => k,
    };
    if store.find_job(id.as_str()).is_some() || store.job_index_taken(pipeline_run_id, job_index) {
        return Err(StoreError::Storage);
    }
    proof {
        assert(has_run(store.runs@, pipeline_run_id@)) by {
            assert(exists|q: int| 0 <= q < store.runs@.len() && #[trigger] store.runs@[q].id@ == pipeline_run_id@);
        }
    }
    let job = JobRun {
        id: id.clone(),
        pipeline_run_id: pipeline_run_id.to_owned(),
        job_name: job_name.to_owned(),
        job_index,
        status: JobStatus::Pending,
        start_time: now,
        end_time: None,
        duration_seconds: None,
        output: None,
    };
    store.jobs.push(job);
    proof {
        assert(final(store).jobs@.drop_last() =~= old(store).jobs@);
        assert forall|i: int, j: int|
            0 <= i < store.jobs@.len() && 0 <= j < store.jobs@.len() && #[trigger] store.jobs@[i].id@
                == #[trigger] store.jobs@[j].id@ implies i == j by {
            if i < old(store).jobs@.len() && j == old(store).jobs@.len() {
                assert(old(store).jobs@[i].id@ == id@);
            }
            if j < old(store).jobs@.len() && i == old(store).jobs@.len() {
                assert(old(store).jobs@[j].id@ == id@);
            }
        }
        let n = old(store).jobs@.len() as int;
        assert forall|q: int, j: int|
            #![trigger store.jobs@[q], store.jobs@[j]]
            n <= q < store.jobs@.len() && 0 <= j < store.jobs@.len() && j != q implies store.jobs@[q].pipeline_run_id@
                != store.jobs@[j].pipeline_run_id@ || store.jobs@[q].job_index != store.jobs@[j].job_index by {
            assert(store.jobs@[j] == old(store).jobs@[j]);
        }
        links_kept(old(store).runs@, old(store).jobs@, old(store).artifacts@, store.runs@, store.jobs@, store.artifacts@);
    }
    Ok(id)
}

/// Records a new pending job run of an existing run, started now, under a
/// fresh random id. A missing run fails with `NotFound`; a taken id, or a job
/// index the run already has, with `Storage`.
pub fn create_job_run(
    store: &mut RunStore,
    pipeline_run_id: &str,
    job_name: &str,
    job_index: i32,
) -> (r: Result<String, StoreError>)
    requires
        old(store).wf(),
    ensures
        final(store).wf(),
        runs_advanced(old(store).runs@, final(store).runs@),
        final(store).runs@ == old(store).runs@,
        final(store).artifacts@ == old(store).artifacts@,
        run_pos(old(store).runs@, pipeline_run_id@) is None ==> r == Err::<String, StoreError>(
            StoreError::NotFound,
        ),
        r == Err::<String, StoreError>(StoreError::NotFound) ==> run_pos(
            old(store).runs@,
            pipeline_run_id@,
        ) is None,
        r is Err ==> r == Err::<String, StoreError>(StoreError::NotFound) || r == Err::<
            String,
            StoreError,
        >(StoreError::Storage),
        run_pos(old(store).runs@, pipeline_run_id@) is Some && old(store).jobs@.len() == 0 ==> r is Ok,
        r is Err ==> final(store).jobs@ == old(store).jobs@,
        r matches Ok(id) ==> job_pos(old(store).jobs@, id@) is None && final(store).jobs@.len()
            == old(store).jobs@.len() + 1 && final(store).jobs@.drop_last() == old(store).jobs@
            && is_new_job(
            final(store).jobs@.last(),
            id@,
            pipeline_run_id@,
            job_name@,
            job_index,
            final(store).jobs@.last().start_time,
        ) && valid_time(final(store).jobs@.last().start_time),
{
    let id = fresh_id();
    let now = current_time();
    create_job_run_at(store, id, now, pipeline_run_id, job_name, job_index)
}

/// Saves an artifact of an existing job run under the given id and creation
/// time. Names are not checked for uniqueness. A missing job fails with
/// `NotFound`, a taken id with `Storage`; either leaves the store as it was.
pub fn save_job_artifact_at(
    store: &mut RunStore,
    id: String,
    now: i64,
    job_run_id: &str,
    name: &str,
    content: &str,
) -> (r: Result<String, StoreError>)
    requires
        old(store).wf(),
        valid_time(now),
    ensures
        final(store).wf(),
        runs_advanced(old(store).runs@, final(store).runs@),
        final(store).runs@ == old(store).runs@,
        final(store).jobs@ == old(store).jobs@,
        job_pos(old(store).jobs@, job_run_id@) is None ==> r == Err::<String, StoreError>(
            StoreError::NotFound,
        ) && final(store).artifacts@ == old(store).artifacts@,
        job_pos(old(store).jobs@, job_run_id@) is Some && artifact_id_taken(old(store).artifacts@, id@)
            ==> r == Err::<String, StoreError>(StoreError::Storage) && final(store).artifacts@ == old(
            store,
        ).artifacts@,
        job_pos(old(store).jobs@, job_run_id@) is Some && !artifact_id_taken(
            old(store).artifacts@,
            id@,
        ) ==> r == Ok::<String, StoreError>(id) && final(store).artifacts@.len() == old(
            store,
        ).artifacts@.len() + 1 && final(store).artifacts@.drop_last() == old(store).artifacts@
            && is_new_artifact(final(store).artifacts@.last(), id@, job_run_id@, name@, content@, now),
{
    if store.find_job(job_run_id).is_none() {
        return Err(StoreError::NotFound);
    }
    if store.artifact_taken(&id) {
        return Err(StoreError::Storage);
    }
    let artifact = ArtifactRecord {
        id: id.clone(),
        job_run_id: job_run_id.to_owned(),
        name: name.to_owned(),
        content: content.to_owned(),
        created_at: now,
    };
    store.artifacts.push(artifact);
    proof {
        assert(final(store).artifacts@.drop_last() =~= old(store).artifacts@);
        assert forall|i: int, j: int|
            0 <= i < store.artifacts@.len() && 0 <= j < store.artifacts@.len()
                && #[trigger] store.artifacts@[i].id@ == #[trigger] store.artifacts@[j].id@ implies i
            == j by {
            if i < old(store).artifacts@.len() && j == old(store).artifacts@.len() {
                assert(old(store).artifacts@[i].id@ == id@);
            }
            if j < old(store).artifacts@.len() && i == old(store).artifacts@.len() {
                assert(old(store).artifacts@[j].id@ == id@);
            }
        }
    }
    Ok(id)
}

/// Saves an artifact of an existing job run, created now, under a fresh
/// random id. A missing job fails with `NotFound`; a taken id with `Storage`.
pub fn save_job_artifact(store: &mut RunStore, job_run_id: &str, name: &str, content: &str) -> (r:
    Result<String, StoreError>)
    requires
        old(store).wf(),
    ensures
        final(store).wf(),
        runs_advanced(old(store).runs@, final(store).runs@),
        final(store).runs@ == old(store).runs@,
        final(store).jobs@ == old(store).jobs@,
        job_pos(old(store).jobs@, job_run_id@) is None ==> r == Err::<String, StoreError>(
            StoreError::NotFound,
        ),
        r == Err::<String, StoreError>(StoreError::NotFound) ==> job_pos(
            old(store).jobs@,
            job_run_id@,
        ) is None,
        r is Err ==> r == Err::<String, StoreError>(StoreError::NotFound) || r == Err::<
            String,
            StoreError,
        >(StoreError::Storage),
        job_pos(old(store).jobs@, job_run_id@) is Some && old(store).artifacts@.len() == 0 ==> r is Ok,
        r is Err ==> final(store).artifacts@ == old(store).artifacts@,
        r matches Ok(id) ==> !artifact_id_taken(old(store).artifacts@, id@)
            && final(store).artifacts@.len() == old(store).artifacts@.len() + 1
            && final(store).artifacts@.drop_last() == old(store).artifacts@ && is_new_artifact(
            final(store).artifacts@.last(),
            id@,
            job_run_id@,
            name@,
            content@,
            final(store).artifacts@.last().created_at,
        ) && valid_time(final(store).artifacts@.last().created_at),
{
    let id = fresh_id();
    let now = current_time();
    save_job_artifact_at(store, id, now, job_run_id, name, content)
}

/// How many job runs of the run `run_id` have status `st`.
pub open spec fn count_status(jobs: Seq<JobRun>, run_id: Seq<char>, st: JobStatus) -> nat
    decreases jobs.len(),
{
    if jobs.len() == 0 {
        0
    } else {
        count_status(jobs.drop_last(), run_id, st) + if jobs.last().pipeline_run_id@ == run_id
            && jobs.last().status == st {
            1nat
        } else {
            0nat
        }
    }
}

/// A run recomputed from the counts of its succeeded and failed jobs at time
/// `now`. A run that already has an end time is left exactly as it is. Else
/// its status is the aggregate of the counts, its job index the number of
/// finished jobs (never lower than before, never above the total), and on a
/// terminal status the end time and duration are set.
pub open spec fn progressed(run: PipelineRun, succeeded: int, failed: int, now: i64) -> PipelineRun {
    if run.end_time is Some {
        run
    } else {
        let status = aggregate(run.total_jobs as int, succeeded, failed);
        let seen = if succeeded + failed > run.current_job_index {
            succeeded + failed
        } else {
            run.current_job_index as int
        };
        let index = if seen > run.total_jobs {
            run.total_jobs as int
        } else {
            seen
        };
        let done = status == PipelineStatus::Failed || status == PipelineStatus::Completed;
        PipelineRun {
            id: run.id,
            pipeline_name: run.pipeline_name,
            repository: run.repository,
            branch: run.branch,
            status,
            start_time: run.start_time,
            end_time: if done {
                Some(now)
            } else {
                None
            },
            duration_seconds: if done {
                Some((now - run.start_time) as i64)
            } else {
                None
            },
            current_job_index: index as i32,
            total_jobs: run.total_jobs,
        }
    }
}

/// A run recomputed from the job runs of the store.
pub open spec fn progressed_in(run: PipelineRun, jobs: Seq<JobRun>, now: i64) -> PipelineRun {
    progressed(
        run,
        count_status(jobs, run.id@, JobStatus::Succeeded) as int,
        count_status(jobs, run.id@, JobStatus::Failed) as int,
        now,
    )
}

/// `after` is a later state of the run `before`: same identity and job total,
/// a job index that has not gone down, and an end time, duration and status
/// that no longer change once the end time is set.
pub open spec fn run_advanced(before: PipelineRun, after: PipelineRun) -> bool {
    &&& after.id == before.id
    &&& after.total_jobs == before.total_jobs
    &&& after.start_time == before.start_time
    &&& before.current_job_index <= after.current_job_index
    &&& before.end_time is Some ==> after.end_time == before.end_time && after.duration_seconds
        == before.duration_seconds && after.status == before.status
}

/// Every run of `before` has advanced in `after`, which may hold new runs.
pub open spec fn runs_advanced(before: Seq<PipelineRun>, after: Seq<PipelineRun>) -> bool {
    &&& before.len() <= after.len()
    &&& forall|i: int| 0 <= i < before.len() ==> #[trigger] run_advanced(before[i], after[i])
}

/// The text of an optional string slice.
pub open spec fn text_of_str(o: Option<&str>) -> Option<Seq<char>> {
    match o {
        Some(s) => Some(s@),
        None => None,
    }
}

/// `after` is the job run `before` ended with `status` and `output` at `now`.
pub open spec fn job_finished(
    before: JobRun,
    after: JobRun,
    status: JobStatus,
    output: Option<Seq<char>>,
    now: i64,
) -> bool {
    &&& after.id == before.id
    &&& after.pipeline_run_id == before.pipeline_run_id
    &&& after.job_name == before.job_name
    &&& after.job_index == before.job_index
    &&& after.start_time == before.start_time
    &&& after.status == status
    &&& after.end_time == Some(now)
    &&& after.duration_seconds == Some((now - before.start_time) as i64)
    &&& text_of(after.output) == output
}

/// Recomputing a run keeps it well formed and only advances it: its job index
/// never goes down nor past the total, and an end time once set never changes.
pub proof fn progress_advances(run: PipelineRun, succeeded: int, failed: int, now: i64)
    requires
        run_wf(run),
        succeeded >= 0,
        failed >= 0,
        valid_time(now),
    ensures
        run_wf(progressed(run, succeeded, failed, now)),
        run_advanced(run, progressed(run, succeeded, failed, now)),
{
}

/// Over any sequence of store operations, a run's job index never goes down,
/// never exceeds its job total, and the total never changes.
pub proof fn job_index_monotone_and_bounded(before: RunStore, after: RunStore, i: int)
    requires
        before.wf(),
        after.wf(),
        runs_advanced(before.runs@, after.runs@),
        0 <= i < before.runs@.len(),
    ensures
        before.runs@[i].current_job_index <= after.runs@[i].current_job_index,
        after.runs@[i].current_job_index <= after.runs@[i].total_jobs,
        after.runs@[i].total_jobs == before.runs@[i].total_jobs,
{
    assert(run_advanced(before.runs@[i], after.runs@[i]));
    assert(run_wf(after.runs@[i]));
}

/// Over any sequence of store operations, a run's end time is set at most
/// once: once present, it and the duration and status stay as they were.
pub proof fn end_time_set_once(before: RunStore, after: RunStore, i: int)
    requires
        runs_advanced(before.runs@, after.runs@),
        0 <= i < before.runs@.len(),
        before.runs@[i].end_time is Some,
    ensures
        after.runs@[i].end_time == before.runs@[i].end_time,
        after.runs@[i].duration_seconds == before.runs@[i].duration_seconds,
        after.runs@[i].status == before.runs@[i].status,
{
    assert(run_advanced(before.runs@[i], after.runs@[i]));
}

/// Recomputing a run a second time, with no job update in between, changes
/// nothing, whenever it happens.
pub proof fn progress_is_idempotent(
    run: PipelineRun,
    succeeded: int,
    failed: int,
    first: i64,
    second: i64,
)
    ensures
        progressed(progressed(run, succeeded, failed, first), succeeded, failed, second)
            == progressed(run, succeeded, failed, first),
{
}

/// Over a sequence of store operations, every run keeps advancing.
pub proof fn runs_advanced_transitive(a: Seq<PipelineRun>, b: Seq<PipelineRun>, c: Seq<PipelineRun>)
    requires
        runs_advanced(a, b),
        runs_advanced(b, c),
    ensures
        runs_advanced(a, c),
{
    assert forall|i: int| 0 <= i < a.len() implies #[trigger] run_advanced(a[i], c[i]) by {
        assert(run_advanced(a[i], b[i]));
        assert(run_advanced(b[i], c[i]));
    }
}

/// A failed job of a run that has not ended makes the recomputed run Failed,
/// however many of its other jobs succeeded.
pub proof fn failed_job_fails_run(run: PipelineRun, jobs: Seq<JobRun>, j: int, now: i64)
    requires
        0 <= j < jobs.len(),
        jobs[j].pipeline_run_id@ == run.id@,
        jobs[j].status == JobStatus::Failed,
        run.end_time is None,
    ensures
        progressed_in(run, jobs, now).status == PipelineStatus::Failed,
{
    count_positive(jobs, run.id@, JobStatus::Failed, j);
}

/// How many job runs belong to the run `run_id`.
pub open spec fn count_rows(jobs: Seq<JobRun>, run_id: Seq<char>) -> nat
    decreases jobs.len(),
{
    if jobs.len() == 0 {
        0
    } else {
        count_rows(jobs.drop_last(), run_id) + if jobs.last().pipeline_run_id@ == run_id {
            1nat
        } else {
            0nat
        }
    }
}

proof fn count_all_rows(jobs: Seq<JobRun>, run_id: Seq<char>, st: JobStatus, j: int)
    requires
        count_status(jobs, run_id, st) == count_rows(jobs, run_id),
        0 <= j < jobs.len(),
        jobs[j].pipeline_run_id@ == run_id,
    ensures
        jobs[j].status == st,
    decreases jobs.len(),
{
    count_status_le_rows(jobs.drop_last(), run_id, st);
    if j < jobs.len() - 1 {
        count_all_rows(jobs.drop_last(), run_id, st, j);
    }
}

proof fn count_status_le_rows(jobs: Seq<JobRun>, run_id: Seq<char>, st: JobStatus)
    ensures
        count_status(jobs, run_id, st) <= count_rows(jobs, run_id),
    decreases jobs.len(),
{
    if jobs.len() > 0 {
        count_status_le_rows(jobs.drop_last(), run_id, st);
    }
}

/// A run of exactly `total_jobs` job runs that a recomputation completes has
/// every one of them Succeeded, and none Failed.
pub proof fn completed_run_has_only_successes(run: PipelineRun, jobs: Seq<JobRun>, now: i64, j: int)
    requires
        run.end_time is None,
        count_rows(jobs, run.id@) == run.total_jobs,
        progressed_in(run, jobs, now).status == PipelineStatus::Completed,
        0 <= j < jobs.len(),
        jobs[j].pipeline_run_id@ == run.id@,
    ensures
        jobs[j].status == JobStatus::Succeeded,
{
    count_all_rows(jobs, run.id@, JobStatus::Succeeded, j);
}

proof fn count_positive(jobs: Seq<JobRun>, run_id: Seq<char>, st: JobStatus, j: int)
    requires
        0 <= j < jobs.len(),
        jobs[j].pipeline_run_id@ == run_id,
        jobs[j].status == st,
    ensures
        count_status(jobs, run_id, st) > 0,
    decreases jobs.len(),
{
    if j < jobs.len() - 1 {
        count_positive(jobs.drop_last(), run_id, st, j);
    }
}

proof fn count_pair_bound(jobs: Seq<JobRun>, run_id: Seq<char>, a: JobStatus, b: JobStatus)
    requires
        a != b,
    ensures
        count_status(jobs, run_id, a) + count_status(jobs, run_id, b) <= jobs.len(),
    decreases jobs.len(),
{
    if jobs.len() > 0 {
        count_pair_bound(jobs.drop_last(), run_id, a, b);
    }
}

fn count_jobs(jobs: &Vec<JobRun>, run_id: &String, st: JobStatus) -> (r: u64)
    ensures
        r == count_status(jobs@, run_id@, st),
{
    let mut n: u64 = 0;
    let mut i: usize = 0;
    while i < jobs.len()
        invariant
            i <= jobs@.len(),
            n <= i,
            n == count_status(jobs@.subrange(0, i as int), run_id@, st),
        decreases jobs@.len() - i,
    {
        proof {
            assert(jobs@.subrange(0, i + 1).drop_last() =~= jobs@.subrange(0, i as int));
        }
        if jobs[i].status == st && jobs[i].pipeline_run_id == *run_id {
            n += 1;
        }
        i += 1;
    }
    proof {
        assert(jobs@.subrange(0, jobs@.len() as int) =~= jobs@);
    }
    n
}

/// Recomputes the run at position `k` from the store's job runs.
fn refresh_run(store: &mut RunStore, k: usize, now: i64)
    requires
        old(store).wf(),
        k < old(store).runs@.len(),
        valid_time(now),
    ensures
        final(store).wf(),
        final(store).jobs@ == old(store).jobs@,
        final(store).artifacts@ == old(store).artifacts@,
        final(store).runs@ == old(store).runs@.update(
            k as int,
            progressed_in(old(store).runs@[k as int], old(store).jobs@, now),
        ),
{
    if store.runs[k].end_time.is_some() {
        proof {
            assert(store.runs@ =~= old(store).runs@.update(
                k as int,
                progressed_in(old(store).runs@[k as int], old(store).jobs@, now),
            ));
        }
        return;
    }
    let ghost before = store.runs@[k as int];
    assert(run_wf(before));
    let succeeded = count_jobs(&store.jobs, &store.runs[k].id, JobStatus::Succeeded);
    let failed = count_jobs(&store.jobs, &store.runs[k].id, JobStatus::Failed);
    let n_jobs = store.jobs.len();
    proof {
        count_pair_bound(store.jobs@, before.id@, JobStatus::Succeeded, JobStatus::Failed);
        assert(succeeded + failed <= n_jobs);
    }
    let total = store.runs[k].total_jobs;
    let status = aggregate_status(total as u64, succeeded, failed);
    let finished = succeeded + failed;
    let old_index = store.runs[k].current_job_index;
    let index: i32 = if finished > old_index as u64 {
        if finished > total as u64 {
            total
        } else {
            finished as i32
        }
    } else {
        old_index
    };
    let start = store.runs[k].start_time;
    store.runs[k].status = status;
    store.runs[k].current_job_index = index;
    if status == PipelineStatus::Failed || status == PipelineStatus::Completed {
        store.runs[k].end_time = Some(now);
        store.runs[k].duration_seconds = Some(now - start);
    }
    proof {
        let expect = progressed_in(before, old(store).jobs@, now);
        assert(store.runs@[k as int] == expect);
        assert(store.runs@ =~= old(store).runs@.update(k as int, expect));
        progress_advances(
            before,
            succeeded as int,
            failed as int,
            now,
        );
        assert forall|i: int, j: int|
            0 <= i < store.runs@.len() && 0 <= j < store.runs@.len() && #[trigger] store.runs@[i].id@
                == #[trigger] store.runs@[j].id@ implies i == j by {
            assert(old(store).runs@[i].id@ == store.runs@[i].id@);
            assert(old(store).runs@[j].id@ == store.runs@[j].id@);
        }
        assert forall|i: int| 0 <= i < store.runs@.len() implies #[trigger] run_wf(store.runs@[i]) by {
            if i != k {
                assert(run_wf(old(store).runs@[i]));
            }
        }
        links_kept(old(store).runs@, old(store).jobs@, old(store).artifacts@, store.runs@, store.jobs@, store.artifacts@);
    }
}

/// Recomputes the run `pipeline_run_id` from its job runs at time `now`. A
/// missing run fails with `NotFound` and leaves the store as it was.
pub fn update_pipeline_progress_at(store: &mut RunStore, pipeline_run_id: &str, now: i64) -> (r:
    Result<(), StoreError>)
    requires
        old(store).wf(),
        valid_time(now),
    ensures
        final(store).wf(),
        final(store).jobs@ == old(store).jobs@,
        final(store).artifacts@ == old(store).artifacts@,
        runs_advanced(old(store).runs@, final(store).runs@),
        match run_pos(old(store).runs@, pipeline_run_id@) {
            None => r == Err::<(), StoreError>(StoreError::NotFound) && final(store).runs@ == old(
                store,
            ).runs@,
            Some(k) => r == Ok::<(), StoreError>(()) && final(store).runs@ == old(store).runs@.update(
                k,
                progressed_in(old(store).runs@[k], old(store).jobs@, now),
            ),
        },
{
    match store.find_run(pipeline_run_id) {
        None => {
            proof { advanced_by_update(old(store).runs@, old(store).runs@, 0, now, old(store).jobs@, false); }
            Err(StoreError::NotFound)
        },
        Some(k) => {
            refresh_run(store, k, now);
            proof { advanced_by_update(old(store).runs@, store.runs@, k as int, now, old(store).jobs@, true); }
            Ok(())
        },
    }
}

/// Recomputes the run `pipeline_run_id` from its job runs now. A missing run
/// fails with `NotFound` and leaves the store as it was.
pub fn update_pipeline_progress(store: &mut RunStore, pipeline_run_id: &str) -> (r: Result<
    (),
    StoreError,
>)
    requires
        old(store).wf(),
    ensures
        final(store).wf(),
        final(store).jobs@ == old(store).jobs@,
        final(store).artifacts@ == old(store).artifacts@,
        runs_advanced(old(store).runs@, final(store).runs@),
        run_pos(old(store).runs@, pipeline_run_id@) is None ==> r == Err::<(), StoreError>(
            StoreError::NotFound,
        ) && final(store).runs@ == old(store).runs@,
        run_pos(old(store).runs@, pipeline_run_id@) matches Some(k) ==> r == Ok::<(), StoreError>(())
            && exists|now: i64|
            valid_time(now) && final(store).runs@ == old(store).runs@.update(
                k,
                #[trigger] progressed_in(old(store).runs@[k], old(store).jobs@, now),
            ),
{
    let now = current_time();
    update_pipeline_progress_at(store, pipeline_run_id, now)
}

proof fn advanced_by_update(
    before: Seq<PipelineRun>,
    after: Seq<PipelineRun>,
    k: int,
    now: i64,
    jobs: Seq<JobRun>,
    changed: bool,
)
    requires
        forall|i: int| 0 <= i < before.len() ==> #[trigger] run_wf(before[i]),
        valid_time(now),
        changed ==> 0 <= k < before.len() && after == before.update(
            k,
            progressed_in(before[k], jobs, now),
        ),
        !changed ==> after == before,
    ensures
        runs_advanced(before, after),
{
    if changed {
        assert(run_wf(before[k]));
        progress_advances(
            before[k],
            count_status(jobs, before[k].id@, JobStatus::Succeeded) as int,
            count_status(jobs, before[k].id@, JobStatus::Failed) as int,
            now,
        );
    }
    assert forall|i: int| 0 <= i < before.len() implies #[trigger] run_advanced(before[i], after[i]) by {
    }
}

/// The job runs after the one at `i` ended with `status` and `output` at `now`.
pub open spec fn jobs_after_finish(
    before: Seq<JobRun>,
    after: Seq<JobRun>,
    i: int,
    status: JobStatus,
    output: Option<Seq<char>>,
    now: i64,
) -> bool {
    &&& after.len() == before.len()
    &&& forall|k: int| 0 <= k < before.len() && k != i ==> #[trigger] after[k] == before[k]
    &&& job_finished(before[i], after[i], status, output, now)
}

/// What `update_job_status` does at time `now`.
pub open spec fn job_update_outcome(
    before_runs: Seq<PipelineRun>,
    before_jobs: Seq<JobRun>,
    after_runs: Seq<PipelineRun>,
    after_jobs: Seq<JobRun>,
    id: Seq<char>,
    status: JobStatus,
    output: Option<Seq<char>>,
    now: i64,
    r: Result<(), StoreError>,
) -> bool {
    match job_pos(before_jobs, id) {
        None => r == Err::<(), StoreError>(StoreError::NotFound) && after_jobs == before_jobs
            && after_runs == before_runs,
        Some(i) => if !status.spec_is_terminal() {
            r == Ok::<(), StoreError>(()) && after_runs == before_runs && jobs_after_finish(
                before_jobs,
                after_jobs,
                i,
                status,
                output,
                now,
            )
        } else {
            match run_pos(before_runs, before_jobs[i].pipeline_run_id@) {
                None => r == Err::<(), StoreError>(StoreError::NotFound) && after_jobs
                    == before_jobs && after_runs == before_runs,
                Some(k) => r == Ok::<(), StoreError>(()) && jobs_after_finish(
                    before_jobs,
                    after_jobs,
                    i,
                    status,
                    output,
                    now,
                ) && after_runs == before_runs.update(
                    k,
                    progressed_in(before_runs[k], after_jobs, now),
                ),
            }
        },
    }
}

/// Ends the job run `id` with `status` and `output` at time `now`: its end
/// time is `now` and its duration runs from its start. A terminal status
/// then recomputes the owning run in the same step. A missing job, or a
/// missing owning run when one is needed, fails with `NotFound` and leaves
/// the store as it was.
pub fn update_job_status_at(
    store: &mut RunStore,
    id: &str,
    status: JobStatus,
    output: Option<&str>,
    now: i64,
) -> (r: Result<(), StoreError>)
    requires
        old(store).wf(),
        valid_time(now),
    ensures
        final(store).wf(),
        runs_advanced(old(store).runs@, final(store).runs@),
        final(store).artifacts@ == old(store).artifacts@,
        job_update_outcome(
            old(store).runs@,
            old(store).jobs@,
            final(store).runs@,
            final(store).jobs@,
            id@,
            status,
            text_of_str(output),
            now,
            r,
        ),
{
    let i = match store.find_job(id) {
        None => {
            proof { advanced_by_update(old(store).runs@, old(store).runs@, 0, now, old(store).jobs@, false); }
            return Err(StoreError::NotFound);
        },
        Some(i) => i,
    };
    let mut run_k: usize = 0;
    if status.is_terminal() {
        match store.find_run(store.jobs[i].pipeline_run_id.as_str()) {
            None => {
                proof { advanced_by_update(old(store).runs@, old(store).runs@, 0, now, old(store).jobs@, false); }
                return Err(StoreError::NotFound);
            },
            Some(k) => {
                run_k = k;
            },
        }
    }
    let ghost before = store.jobs@[i as int];
    assert(job_wf(before));
    let start = store.jobs[i].start_time;
    store.jobs[i].status = status;
    store.jobs[i].end_time = Some(now);
    store.jobs[i].duration_seconds = Some(now - start);
    store.jobs[i].output = match output {
        Some(o) => Some(o.to_owned()),
        None => None,
    };
    proof {
        assert forall|a: int, b: int|
            0 <= a < store.jobs@.len() && 0 <= b < store.jobs@.len() && #[trigger] store.jobs@[a].id@
                == #[trigger] store.jobs@[b].id@ implies a == b by {
            assert(old(store).jobs@[a].id@ == store.jobs@[a].id@);
            assert(old(store).jobs@[b].id@ == store.jobs@[b].id@);
        }
        assert forall|a: int| 0 <= a < store.jobs@.len() implies #[trigger] job_wf(store.jobs@[a]) by {
            if a != i {
                assert(job_wf(old(store).jobs@[a]));
            }
        }
        links_kept(old(store).runs@, old(store).jobs@, old(store).artifacts@, store.runs@, store.jobs@, store.artifacts@);
    }
    if status.is_terminal() {
        let ghost mid = store.runs@;
        let ghost mid_jobs = store.jobs@;
        refresh_run(store, run_k, now);
        proof { advanced_by_update(mid, store.runs@, run_k as int, now, mid_jobs, true); }
    } else {
        proof { advanced_by_update(old(store).runs@, old(store).runs@, 0, now, old(store).jobs@, false); }
    }
    Ok(())
}

/// Ends the job run `id` with `status` and `output` now, and on a terminal
/// status recomputes the owning run in the same step. A missing job, or a
/// missing owning run when one is needed, fails with `NotFound` and leaves
/// the store as it was.
pub fn update_job_status(store: &mut RunStore, id: &str, status: JobStatus, output: Option<&str>) -> (r:
    Result<(), StoreError>)
    requires
        old(store).wf(),
    ensures
        final(store).wf(),
        runs_advanced(old(store).runs@, final(store).runs@),
        final(store).artifacts@ == old(store).artifacts@,
        exists|now: i64|
            valid_time(now) && #[trigger] job_update_outcome(
                old(store).runs@,
                old(store).jobs@,
                final(store).runs@,
                final(store).jobs@,
                id@,
                status,
                text_of_str(output),
                now,
                r,
            ),
{
    let now = current_time();
    update_job_status_at(store, id, status, output, now)
}

} // verus!
