use vstd::prelude::*;
use crate::models::{JobArtifact, JobResult, JobRun, JobUpdate, Pipeline, PipelineRun, Stage};
use crate::status::{JobStatus, PipelineStatus};
use crate::store::{
    create_job_run, create_pipeline_run, has_run, is_new_run, job_pos, job_update_outcome, run_pos, runs_advanced,
    failed_job_fails_run, save_job_artifact, update_job_status, valid_time, ArtifactRecord, RunStore,
    StoreError,
};

verus! {

/// Why a build could not be started.
#[derive(Clone, Copy, Debug, PartialEq, Eq, Structural)]
pub enum TriggerError {
    /// The pipeline definition holds more jobs than a run can count.
    Configuration,
    /// The store refused the run or one of its job runs.
    Store(StoreError),
}

/// Why a job could not be run on the worker.
pub enum DispatchError {
    /// The worker could not be reached.
    Transport(String),
    /// The worker's answer could not be decoded.
    Decode(String),
}

/// The number of jobs of all stages.
pub open spec fn total_jobs_of(stages: Seq<Stage>) -> int
    decreases stages.len(),
{
    if stages.len() == 0 {
        0
    } else {
        total_jobs_of(stages.drop_last()) + stages.last().jobs@.len()
    }
}

/// The names of all jobs, stage after stage, each stage in its own order:
/// the order in which the jobs are indexed and run.
pub open spec fn job_names(stages: Seq<Stage>) -> Seq<Seq<char>>
    decreases stages.len(),
{
    if stages.len() == 0 {
        seq![]
    } else {
        job_names(stages.drop_last()) + stages.last().jobs@.map_values(|j: crate::models::Job| j.name@)
    }
}

proof fn job_names_len(stages: Seq<Stage>)
    ensures
        job_names(stages).len() == total_jobs_of(stages),
    decreases stages.len(),
{
    if stages.len() > 0 {
        job_names_len(stages.drop_last());
    }
}

/// A job run created for position `index` of run `run_id`, still pending.
pub open spec fn planned_job(j: JobRun, id: Seq<char>, run_id: Seq<char>, name: Seq<char>, index: int) -> bool {
    &&& j.id@ == id
    &&& j.pipeline_run_id@ == run_id
    &&& j.job_name@ == name
    &&& j.job_index == index
    &&& j.status == JobStatus::Pending
}

/// The progress of one pipeline run through its jobs.
pub struct Execution {
    pub run_id: String,
    /// The job run ids, by job index.
    pub job_ids: Vec<String>,
    /// The index of the job to run next.
    pub next: usize,
    /// Set once a job has failed: nothing more is run.
    pub halted: bool,
}

impl Execution {
    pub open spec fn spec_next_job(&self) -> Option<usize> {
        if self.halted || self.next >= self.job_ids@.len() {
            None
        } else {
            Some(self.next)
        }
    }

    /// The index of the job to dispatch now, or `None` when the run is over:
    /// all jobs ran, or one failed.
    #[verifier::when_used_as_spec(spec_next_job)]
    pub fn next_job(&self) -> (r: Option<usize>)
        ensures
            r == self.spec_next_job(),
    {
        if self.halted || self.next >= self.job_ids.len() {
            None
        } else {
            Some(self.next)
        }
    }
}

/// Once a job has failed, no further job is ever dispatched.
pub proof fn halted_dispatches_nothing(exec: Execution)
    requires
        exec.halted,
    ensures
        exec.spec_next_job() is None,
{
}

/// The number of jobs of the pipeline, or `None` when it exceeds `i32::MAX`.
pub fn count_jobs(pipeline: &Pipeline) -> (r: Option<i32>)
    ensures
        total_jobs_of(pipeline.stages@) <= i32::MAX ==> r == Some(total_jobs_of(pipeline.stages@) as i32),
        total_jobs_of(pipeline.stages@) > i32::MAX ==> r is None,
{
    let mut total: i32 = 0;
    let mut s: usize = 0;
    while s < pipeline.stages.len()
        invariant
            s <= pipeline.stages@.len(),
            0 <= total,
            total == total_jobs_of(pipeline.stages@.subrange(0, s as int)),
        decreases pipeline.stages@.len() - s,
    {
        proof {
            assert(pipeline.stages@.subrange(0, s + 1).drop_last() =~= pipeline.stages@.subrange(0, s as int));
        }
        let n = pipeline.stages[s].jobs.len();
        if n > (i32::MAX - total) as usize {
            proof { too_many_jobs(pipeline.stages@, s as int); }
            return None;
        }
        total = total + n as i32;
        s += 1;
    }
    proof {
        assert(pipeline.stages@.subrange(0, pipeline.stages@.len() as int) =~= pipeline.stages@);
    }
    Some(total)
}

proof fn total_grows(stages: Seq<Stage>, k: int)
    requires
        0 <= k <= stages.len(),
    ensures
        total_jobs_of(stages.subrange(0, k)) <= total_jobs_of(stages),
    decreases stages.len(),
{
    if k < stages.len() {
        assert(stages.drop_last().subrange(0, k) =~= stages.subrange(0, k));
        total_grows(stages.drop_last(), k);
    } else {
        assert(stages.subrange(0, k) =~= stages);
    }
}

proof fn job_names_prefix(stages: Seq<Stage>, k: int)
    requires
        0 <= k <= stages.len(),
    ensures
        job_names(stages.subrange(0, k)) == job_names(stages).subrange(
            0,
            total_jobs_of(stages.subrange(0, k)),
        ),
    decreases stages.len(),
{
    job_names_len(stages.subrange(0, k));
    job_names_len(stages);
    if k < stages.len() {
        assert(stages.drop_last().subrange(0, k) =~= stages.subrange(0, k));
        job_names_prefix(stages.drop_last(), k);
        job_names_len(stages.drop_last());
        total_grows(stages.drop_last(), k);
        let t = total_jobs_of(stages.subrange(0, k));
        assert(job_names(stages).subrange(0, t) =~= job_names(stages.drop_last()).subrange(0, t));
    } else {
        assert(stages.subrange(0, k) =~= stages);
        assert(job_names(stages).subrange(0, job_names(stages).len() as int) =~= job_names(stages));
    }
}

proof fn too_many_jobs(stages: Seq<Stage>, s: int)
    requires
        0 <= s < stages.len(),
        total_jobs_of(stages.subrange(0, s)) + stages[s].jobs@.len() > i32::MAX,
    ensures
        total_jobs_of(stages) > i32::MAX,
{
    assert(stages.subrange(0, s + 1).drop_last() =~= stages.subrange(0, s));
    total_grows(stages, s + 1);
}

/// The job rows of `jobs` from position `base` on belong to run `run_id` and
/// are pending.
pub open spec fn pending_rows_of(jobs: Seq<JobRun>, base: int, run_id: Seq<char>) -> bool {
    forall|q: int|
        base <= q < jobs.len() ==> (#[trigger] jobs[q]).pipeline_run_id@ == run_id && jobs[q].status
            == JobStatus::Pending
}

/// Creates a pending run of the pipeline and one pending job run per job,
/// indexed 0, 1, ... in stage order and then job order, and returns the
/// execution that will run them. A pipeline of more than `i32::MAX` jobs
/// fails with `Configuration` before anything is stored. A `Store` error
/// comes only from a drawn id that was already taken; it leaves the run (if
/// it was created) and the job rows created before it.
pub fn start_pipeline_run(
    store: &mut RunStore,
    pipeline: &Pipeline,
    repository: &str,
    branch: &str,
) -> (r: Result<Execution, TriggerError>)
    requires
        old(store).wf(),
    ensures
        final(store).wf(),
        runs_advanced(old(store).runs@, final(store).runs@),
        final(store).artifacts@ == old(store).artifacts@,
        final(store).jobs@.len() >= old(store).jobs@.len(),
        final(store).jobs@.subrange(0, old(store).jobs@.len() as int) == old(store).jobs@,
        total_jobs_of(pipeline.stages@) > i32::MAX <==> r == Err::<Execution, TriggerError>(
            TriggerError::Configuration,
        ),
        r == Err::<Execution, TriggerError>(TriggerError::Configuration) ==> final(store).runs@
            == old(store).runs@ && final(store).jobs@ == old(store).jobs@,
        r matches Err(TriggerError::Store(e)) ==> e == StoreError::Storage && ((final(store).runs@
            == old(store).runs@ && final(store).jobs@ == old(store).jobs@) || (final(store).runs@.len()
            == old(store).runs@.len() + 1 && final(store).runs@.drop_last() == old(store).runs@
            && is_new_run(
            final(store).runs@.last(),
            final(store).runs@.last().id@,
            pipeline.name@,
            repository@,
            branch@,
            total_jobs_of(pipeline.stages@) as i32,
            final(store).runs@.last().start_time,
        ) && pending_rows_of(
            final(store).jobs@,
            old(store).jobs@.len() as int,
            final(store).runs@.last().id@,
        ))),
        old(store).runs@.len() == 0 && old(store).jobs@.len() == 0 && total_jobs_of(pipeline.stages@)
            <= 1 ==> r is Ok,
        r matches Ok(exec) ==> {
            &&& exec.next == 0
            &&& !exec.halted
            &&& exec.job_ids@.len() == total_jobs_of(pipeline.stages@)
            &&& final(store).runs@.len() == old(store).runs@.len() + 1
            &&& final(store).runs@.drop_last() == old(store).runs@
            &&& is_new_run(
                final(store).runs@.last(),
                exec.run_id@,
                pipeline.name@,
                repository@,
                branch@,
                total_jobs_of(pipeline.stages@) as i32,
                final(store).runs@.last().start_time,
            )
            &&& final(store).jobs@.len() == old(store).jobs@.len() + exec.job_ids@.len()
            &&& forall|q: int|
                0 <= q < old(store).jobs@.len() ==> (#[trigger] final(store).jobs@[q]).pipeline_run_id@
                    != exec.run_id@
            &&& forall|i: int|
                #![trigger exec.job_ids@[i]]
                0 <= i < exec.job_ids@.len() ==> planned_job(
                    final(store).jobs@[old(store).jobs@.len() + i],
                    exec.job_ids@[i]@,
                    exec.run_id@,
                    job_names(pipeline.stages@)[i],
                    i,
                )
        },
{
    let total = match count_jobs(pipeline) {
        None => return Err(TriggerError::Configuration),
        Some(t) => t,
    };
    proof {
        total_grows(pipeline.stages@, 0);
        assert(old(store).jobs@.subrange(0, old(store).jobs@.len() as int) =~= old(store).jobs@);
    }
    let run_id = match create_pipeline_run(store, pipeline.name.as_str(), repository, branch, total) {
        Err(e) => return Err(TriggerError::Store(e)),
        Ok(id) => id,
    };
    let ghost names = job_names(pipeline.stages@);
    let ghost runs1 = store.runs@;
    let ghost base0: int = old(store).jobs@.len() as int;
    proof {
        job_names_len(pipeline.stages@);
        assert(store.runs@.last().id@ == run_id@);
        assert forall|q: int| 0 <= q < base0 implies (#[trigger] old(store).jobs@[q]).pipeline_run_id@
            != run_id@ by {
            if old(store).jobs@[q].pipeline_run_id@ == run_id@ {
                assert(has_run(old(store).runs@, old(store).jobs@[q].pipeline_run_id@));
                let k = choose|k: int| 0 <= k < old(store).runs@.len() && #[trigger] old(store).runs@[k].id@
                    == run_id@;
                assert(exists|k: int| 0 <= k < old(store).runs@.len() && #[trigger] old(store).runs@[k].id@
                    == run_id@);
            }
        }
    }
    let mut job_ids: Vec<String> = Vec::new();
    let mut s: usize = 0;
    while s < pipeline.stages.len()
        invariant
            store.wf(),
            runs_advanced(old(store).runs@, store.runs@),
            store.runs@ == runs1,
            runs1.len() == old(store).runs@.len() + 1,
            runs1.drop_last() == old(store).runs@,
            runs1.last().id@ == run_id@,
            is_new_run(runs1.last(), run_id@, pipeline.name@, repository@, branch@, total, runs1.last().start_time),
            store.artifacts@ == old(store).artifacts@,
            base0 == old(store).jobs@.len(),
            store.jobs@.len() == base0 + job_ids@.len(),
            store.jobs@.subrange(0, base0) == old(store).jobs@,
            forall|q: int| 0 <= q < base0 ==> (#[trigger] old(store).jobs@[q]).pipeline_run_id@ != run_id@,
            s <= pipeline.stages@.len(),
            names == job_names(pipeline.stages@),
            names.len() == total,
            job_ids@.len() == total_jobs_of(pipeline.stages@.subrange(0, s as int)),
            job_ids@.len() <= total,
            total == total_jobs_of(pipeline.stages@),
            forall|i: int|
                #![trigger job_ids@[i]]
                0 <= i < job_ids@.len() ==> planned_job(store.jobs@[base0 + i], job_ids@[i]@, run_id@, names[i], i),
        decreases pipeline.stages@.len() - s,
    {
        let stage = &pipeline.stages[s];
        let ghost base: int = job_ids@.len() as int;
        proof {
            assert(pipeline.stages@.subrange(0, s + 1).drop_last() =~= pipeline.stages@.subrange(0, s as int));
            total_grows(pipeline.stages@, s + 1);
        }
        let mut j: usize = 0;
        while j < stage.jobs.len()
            invariant
                store.wf(),
                runs_advanced(old(store).runs@, store.runs@),
                store.runs@ == runs1,
                runs1.len() == old(store).runs@.len() + 1,
                runs1.drop_last() == old(store).runs@,
                runs1.last().id@ == run_id@,
                is_new_run(runs1.last(), run_id@, pipeline.name@, repository@, branch@, total, runs1.last().start_time),
                store.artifacts@ == old(store).artifacts@,
                base0 == old(store).jobs@.len(),
                store.jobs@.len() == base0 + job_ids@.len(),
                store.jobs@.subrange(0, base0) == old(store).jobs@,
                forall|q: int| 0 <= q < base0 ==> (#[trigger] old(store).jobs@[q]).pipeline_run_id@ != run_id@,
            forall|q: int| 0 <= q < base0 ==> (#[trigger] old(store).jobs@[q]).pipeline_run_id@ != run_id@,
                j <= stage.jobs@.len(),
                *stage == pipeline.stages@[s as int],
                s < pipeline.stages@.len(),
                names == job_names(pipeline.stages@),
                names.len() == total,
                job_ids@.len() == base + j,
                base == total_jobs_of(pipeline.stages@.subrange(0, s as int)),
                base + stage.jobs@.len() <= total,
                total == total_jobs_of(pipeline.stages@),
                forall|i: int|
                    #![trigger job_ids@[i]]
                    0 <= i < job_ids@.len() ==> planned_job(store.jobs@[base0 + i], job_ids@[i]@, run_id@, names[i], i),
            decreases stage.jobs@.len() - j,
        {
            let index = job_ids.len() as i32;
            let ghost before_jobs = store.jobs@;
            let ghost before_ids = job_ids@;
            proof {
                assert(runs1[runs1.len() - 1].id@ == run_id@);
                assert(run_pos(store.runs@, run_id@) is Some);
            }
            let id = match create_job_run(store, run_id.as_str(), stage.jobs[j].name.as_str(), index) {
                Err(e) => {
                    proof {
                        assert forall|q: int| base0 <= q < store.jobs@.len() implies (#[trigger] store.jobs@[q]).pipeline_run_id@
                            == run_id@ && store.jobs@[q].status == JobStatus::Pending by {
                            let i = q - base0;
                            assert(planned_job(store.jobs@[base0 + i], job_ids@[i]@, run_id@, names[i], i));
                        }
                    }
                    return Err(TriggerError::Store(e));
                },
                Ok(id) => id,
            };
            job_ids.push(id);
            proof {
                let n = before_ids.len() as int;
                assert(names[n] == stage.jobs@[j as int].name@) by {
                    job_names_prefix(pipeline.stages@, s + 1);
                    job_names_len(pipeline.stages@.subrange(0, s as int));
                    job_names_len(pipeline.stages@);
                    assert(pipeline.stages@.subrange(0, s + 1).drop_last() =~= pipeline.stages@.subrange(0, s as int));
                    assert(pipeline.stages@.subrange(0, s + 1).last() == *stage);
                    let pre = job_names(pipeline.stages@.subrange(0, s + 1));
                    assert(pre[n] == names[n]);
                    assert(pre[n] == stage.jobs@[j as int].name@);
                }
                assert(store.jobs@.subrange(0, base0) =~= before_jobs.subrange(0, base0));
                assert forall|i: int| #![trigger job_ids@[i]] 0 <= i < job_ids@.len() implies planned_job(
                    store.jobs@[base0 + i], job_ids@[i]@, run_id@, names[i], i) by {
                    if i < n {
                        assert(job_ids@[i] == before_ids[i]);
                        assert(store.jobs@[base0 + i] == before_jobs[base0 + i]);
                    }
                }
            }
            j += 1;
        }
        proof {
            assert(pipeline.stages@.subrange(0, s + 1).drop_last() =~= pipeline.stages@.subrange(0, s as int));
        }
        s += 1;
    }
    proof {
        assert(pipeline.stages@.subrange(0, pipeline.stages@.len() as int) =~= pipeline.stages@);
        assert forall|q: int| 0 <= q < base0 implies (#[trigger] store.jobs@[q]).pipeline_run_id@ != run_id@ by {
            assert(store.jobs@.subrange(0, base0)[q] == store.jobs@[q]);
        }
    }
    Ok(Execution { run_id, job_ids, next: 0, halted: false })
}

/// Recording a failed job of a run that has not ended leaves the run Failed,
/// however many of its other jobs succeeded.
pub proof fn failed_step_fails_run(
    before_runs: Seq<PipelineRun>,
    before_jobs: Seq<JobRun>,
    after_runs: Seq<PipelineRun>,
    after_jobs: Seq<JobRun>,
    id: Seq<char>,
    output: Option<Seq<char>>,
    now: i64,
    i: int,
    k: int,
)
    requires
        job_update_outcome(
            before_runs,
            before_jobs,
            after_runs,
            after_jobs,
            id,
            JobStatus::Failed,
            output,
            now,
            Ok(()),
        ),
        job_pos(before_jobs, id) == Some(i),
        run_pos(before_runs, before_jobs[i].pipeline_run_id@) == Some(k),
        before_runs[k].end_time is None,
    ensures
        after_runs[k].status == PipelineStatus::Failed,
{
    let rid = before_jobs[i].pipeline_run_id@;
    assert(exists|q: int| 0 <= q < before_jobs.len() && #[trigger] before_jobs[q].id@ == id);
    assert(exists|q: int| 0 <= q < before_runs.len() && #[trigger] before_runs[q].id@ == rid);
    failed_job_fails_run(before_runs[k], after_jobs, i, now);
}

/// The output of a job whose worker could not be reached.
pub open spec fn transport_failure_text(message: Seq<char>) -> Seq<char> {
    "Failed to communicate with worker: "@ + message
}

/// The output of a job whose worker answer could not be decoded.
pub open spec fn decode_failure_text(message: Seq<char>) -> Seq<char> {
    "Failed to parse worker response: "@ + message
}

/// The result recorded for the job run `job_run_id` after dispatching it: the
/// worker's own result, or a failure that describes why there is none. A
/// dispatched job always ends Succeeded or Failed: any other status the
/// worker reports counts as a failure, so the run always reaches Completed
/// or Failed.
pub fn job_result_from_dispatch(job_run_id: &str, outcome: Result<JobResult, DispatchError>) -> (r:
    JobResult)
    ensures
        r.id@ == job_run_id@,
        match outcome {
            Ok(res) => r.status == (if res.status == JobStatus::Succeeded {
                JobStatus::Succeeded
            } else {
                JobStatus::Failed
            }) && r.output == res.output && r.artifacts == res.artifacts,
            Err(DispatchError::Transport(m)) => r.status == JobStatus::Failed && r.output@
                == transport_failure_text(m@) && r.artifacts@.len() == 0,
            Err(DispatchError::Decode(m)) => r.status == JobStatus::Failed && r.output@
                == decode_failure_text(m@) && r.artifacts@.len() == 0,
        },
{
    match outcome {
        Ok(res) => JobResult {
            id: job_run_id.to_owned(),
            status: if res.status == JobStatus::Succeeded {
                JobStatus::Succeeded
            } else {
                JobStatus::Failed
            },
            output: res.output,
            artifacts: res.artifacts,
        },
        Err(DispatchError::Transport(m)) => {
            let mut output = "Failed to communicate with worker: ".to_owned();
            output.append(m.as_str());
            JobResult {
                id: job_run_id.to_owned(),
                status: JobStatus::Failed,
                output,
                artifacts: Vec::new(),
            }
        },
        Err(DispatchError::Decode(m)) => {
            let mut output = "Failed to parse worker response: ".to_owned();
            output.append(m.as_str());
            JobResult {
                id: job_run_id.to_owned(),
                status: JobStatus::Failed,
                output,
                artifacts: Vec::new(),
            }
        },
    }
}

/// `after` is `before` followed by one saved record for each reported
/// artifact picked by `kept`, in the reported order, all for the job run
/// `job_id`.
pub open spec fn kept_artifacts(
    before: Seq<ArtifactRecord>,
    after: Seq<ArtifactRecord>,
    job_id: Seq<char>,
    reported: Seq<JobArtifact>,
    kept: Seq<int>,
) -> bool {
    &&& after.len() == before.len() + kept.len()
    &&& after.subrange(0, before.len() as int) == before
    &&& forall|i: int, j: int| 0 <= i < j < kept.len() ==> #[trigger] kept[i] < #[trigger] kept[j]
    &&& forall|i: int|
        0 <= i < kept.len() ==> 0 <= #[trigger] kept[i] < reported.len() && after[before.len()
            + i].job_run_id@ == job_id && after[before.len() + i].name@ == reported[kept[i]].name@
            && after[before.len() + i].content@ == reported[kept[i]].content@
}

/// The reported artifacts were saved for the job run `job_id` in order, each
/// one appended unless its save failed. When the job run exists, the store
/// held no artifact and at most one was reported, none was skipped; when it
/// does not exist, nothing was saved.
pub open spec fn artifacts_saved(
    jobs: Seq<JobRun>,
    before: Seq<ArtifactRecord>,
    after: Seq<ArtifactRecord>,
    job_id: Seq<char>,
    reported: Seq<JobArtifact>,
) -> bool {
    &&& exists|kept: Seq<int>| #[trigger] kept_artifacts(before, after, job_id, reported, kept)
    &&& job_pos(jobs, job_id) is None ==> after == before
    &&& job_pos(jobs, job_id) is Some && before.len() == 0 && reported.len() <= 1 ==> after.len()
        == reported.len()
}

/// Saves each artifact for the job run `job_run_id`, in order; a failed save
/// is skipped and does not stop the others.
fn save_artifacts(store: &mut RunStore, job_run_id: &str, artifacts: &Vec<JobArtifact>)
    requires
        old(store).wf(),
    ensures
        final(store).wf(),
        final(store).runs@ == old(store).runs@,
        final(store).jobs@ == old(store).jobs@,
        artifacts_saved(
            old(store).jobs@,
            old(store).artifacts@,
            final(store).artifacts@,
            job_run_id@,
            artifacts@,
        ),
{
    let ghost base = old(store).artifacts@;
    let ghost mut kept: Seq<int> = Seq::empty();
    proof {
        assert(base.subrange(0, base.len() as int) =~= base);
    }
    let mut k: usize = 0;
    while k < artifacts.len()
        invariant
            store.wf(),
            k <= artifacts@.len(),
            store.runs@ == old(store).runs@,
            store.jobs@ == old(store).jobs@,
            base == old(store).artifacts@,
            kept_artifacts(base, store.artifacts@, job_run_id@, artifacts@, kept),
            forall|i: int| 0 <= i < kept.len() ==> #[trigger] kept[i] < k,
            job_pos(store.jobs@, job_run_id@) is None ==> store.artifacts@ == base,
            job_pos(store.jobs@, job_run_id@) is Some && base.len() == 0 && k <= 1 ==> store.artifacts@.len() == k,
        decreases artifacts@.len() - k,
    {
        let ghost prev = store.artifacts@;
        let saved = save_job_artifact(store, job_run_id, artifacts[k].name.as_str(), artifacts[k].content.as_str());
        proof {
            if saved is Ok {
                let old_kept = kept;
                kept = kept.push(k as int);
                assert(store.artifacts@.subrange(0, base.len() as int) =~= prev.subrange(0, base.len() as int));
                assert forall|i: int| 0 <= i < kept.len() implies 0 <= #[trigger] kept[i] < artifacts@.len()
                    && store.artifacts@[base.len() + i].job_run_id@ == job_run_id@
                    && store.artifacts@[base.len() + i].name@ == artifacts@[kept[i]].name@
                    && store.artifacts@[base.len() + i].content@ == artifacts@[kept[i]].content@ by {
                    if i < old_kept.len() {
                        assert(kept[i] == old_kept[i]);
                        assert(store.artifacts@[base.len() + i] == prev[base.len() + i]);
                    }
                }
                assert forall|i: int, j: int| 0 <= i < j < kept.len() implies #[trigger] kept[i] < #[trigger] kept[j] by {
                    if j < old_kept.len() {
                        assert(kept[i] == old_kept[i] && kept[j] == old_kept[j]);
                    } else {
                        assert(kept[i] == old_kept[i]);
                    }
                }
                assert(kept_artifacts(base, store.artifacts@, job_run_id@, artifacts@, kept));
            }
        }
        k += 1;
    }
}

/// Records the result of the job at `exec.next`: ends its job run with the
/// result's status and output (recomputing the run), saves its artifacts,
/// and moves on to the next job, halting for good when the job failed.
pub fn record_result(exec: &mut Execution, store: &mut RunStore, result: &JobResult) -> (r: Result<
    (),
    StoreError,
>)
    requires
        old(store).wf(),
        old(exec).spec_next_job() is Some,
    ensures
        final(store).wf(),
        runs_advanced(old(store).runs@, final(store).runs@),
        final(exec).run_id == old(exec).run_id,
        final(exec).job_ids@ == old(exec).job_ids@,
        final(exec).next == old(exec).next + 1,
        final(exec).halted == (result.status == JobStatus::Failed),
        artifacts_saved(
            old(store).jobs@,
            old(store).artifacts@,
            final(store).artifacts@,
            old(exec).job_ids@[old(exec).next as int]@,
            result.artifacts@,
        ),
        exists|now: i64|
            valid_time(now) && #[trigger] job_update_outcome(
                old(store).runs@,
                old(store).jobs@,
                final(store).runs@,
                final(store).jobs@,
                old(exec).job_ids@[old(exec).next as int]@,
                result.status,
                Some(result.output@),
                now,
                r,
            ),
{
    let k = exec.next;
    let count = exec.job_ids.len();
    assert(k < count);
    let r = update_job_status(store, exec.job_ids[k].as_str(), result.status, Some(result.output.as_str()));
    save_artifacts(store, exec.job_ids[k].as_str(), &result.artifacts);
    exec.next = k + 1;
    exec.halted = result.status == JobStatus::Failed;
    r
}

/// Applies a status report for the job run `job_id`: ends it with the
/// reported status and output, then saves the reported artifacts. When the
/// status cannot be recorded the error is returned and no artifact is saved.
pub fn apply_job_update(store: &mut RunStore, job_id: &str, update: &JobUpdate) -> (r: Result<
    (),
    StoreError,
>)
    requires
        old(store).wf(),
    ensures
        final(store).wf(),
        runs_advanced(old(store).runs@, final(store).runs@),
        r is Err ==> final(store).artifacts@ == old(store).artifacts@,
        r is Ok ==> match &update.artifacts {
            Some(a) => artifacts_saved(
                old(store).jobs@,
                old(store).artifacts@,
                final(store).artifacts@,
                job_id@,
                a@,
            ),
            None => final(store).artifacts@ == old(store).artifacts@,
        },
        exists|now: i64|
            valid_time(now) && #[trigger] job_update_outcome(
                old(store).runs@,
                old(store).jobs@,
                final(store).runs@,
                final(store).jobs@,
                job_id@,
                update.status,
                crate::store::text_of(update.output),
                now,
                r,
            ),
{
    let output: Option<&str> = match &update.output {
        Some(o) => Some(o.as_str()),
        None => None,
    };
    let r = update_job_status(store, job_id, update.status, output);
    if r.is_err() {
        return r;
    }
    match &update.artifacts {
        Some(artifacts) => save_artifacts(store, job_id, artifacts),
        None => {},
    }
    r
}

} // verus!
