use vstd::prelude::*;
use crate::models::{JobArtifact, JobDetails, JobRun, PipelineRun};
use crate::store::{job_pos, links, text_of, ArtifactRecord, RunStore, StoreError};

verus! {

broadcast use vstd::seq_lib::group_to_multiset_ensures;

/// Run `i` is the latest run named `name`: no run of that name started later,
/// and of those that started at the same time it was recorded last.
pub open spec fn is_latest(runs: Seq<PipelineRun>, name: Seq<char>, i: int) -> bool {
    &&& 0 <= i < runs.len()
    &&& runs[i].pipeline_name@ == name
    &&& forall|k: int|
        0 <= k < runs.len() && #[trigger] runs[k].pipeline_name@ == name ==> runs[k].start_time
            <= runs[i].start_time
    &&& forall|k: int|
        i < k < runs.len() && #[trigger] runs[k].pipeline_name@ == name ==> runs[k].start_time
            < runs[i].start_time
}

pub open spec fn has_run_named(runs: Seq<PipelineRun>, name: Seq<char>) -> bool {
    exists|k: int| 0 <= k < runs.len() && #[trigger] runs[k].pipeline_name@ == name
}

/// The job runs of the run `run_id`, in store order.
pub open spec fn jobs_of(jobs: Seq<JobRun>, run_id: Seq<char>) -> Seq<JobRun> {
    jobs.filter(|j: JobRun| j.pipeline_run_id@ == run_id)
}

/// Where `x` goes in `t`: after every entry of no greater index, searching
/// from the back.
pub open spec fn insert_pos(t: Seq<JobRun>, x: JobRun) -> int
    decreases t.len(),
{
    if t.len() == 0 || t.last().job_index <= x.job_index {
        t.len() as int
    } else {
        insert_pos(t.drop_last(), x)
    }
}

/// `s` sorted by `job_index` by insertion, entries of equal index kept in
/// their order in `s`.
pub open spec fn sort_by_index(s: Seq<JobRun>) -> Seq<JobRun>
    decreases s.len(),
{
    if s.len() == 0 {
        s
    } else {
        let t = sort_by_index(s.drop_last());
        t.insert(insert_pos(t, s.last()), s.last())
    }
}

proof fn insert_pos_bounds(t: Seq<JobRun>, x: JobRun)
    ensures
        0 <= insert_pos(t, x) <= t.len(),
    decreases t.len(),
{
    if t.len() > 0 && t.last().job_index > x.job_index {
        insert_pos_bounds(t.drop_last(), x);
    }
}

/// Strictly increasing job indices.
pub open spec fn strictly_sorted_by_index(s: Seq<JobRun>) -> bool {
    forall|a: int, b: int| 0 <= a < b < s.len() ==> #[trigger] s[a].job_index < #[trigger] s[b].job_index
}

pub open spec fn sorted_by_index(s: Seq<JobRun>) -> bool {
    forall|a: int, b: int| 0 <= a < b < s.len() ==> #[trigger] s[a].job_index <= #[trigger] s[b].job_index
}

/// Where `x` goes in `t`: after every record created no later, searching
/// from the back.
pub open spec fn time_pos(t: Seq<ArtifactRecord>, x: ArtifactRecord) -> int
    decreases t.len(),
{
    if t.len() == 0 || t.last().created_at <= x.created_at {
        t.len() as int
    } else {
        time_pos(t.drop_last(), x)
    }
}

/// `s` sorted by creation time by insertion, records of equal time kept in
/// their order in `s`.
pub open spec fn sort_by_time(s: Seq<ArtifactRecord>) -> Seq<ArtifactRecord>
    decreases s.len(),
{
    if s.len() == 0 {
        s
    } else {
        let t = sort_by_time(s.drop_last());
        t.insert(time_pos(t, s.last()), s.last())
    }
}

pub open spec fn sorted_by_time(s: Seq<ArtifactRecord>) -> bool {
    forall|a: int, b: int| 0 <= a < b < s.len() ==> #[trigger] s[a].created_at <= #[trigger] s[b].created_at
}

/// The artifacts of the job `job_id`, oldest first; those created at the
/// same time in the order they were saved.
pub open spec fn artifact_records_of(arts: Seq<ArtifactRecord>, job_id: Seq<char>) -> Seq<ArtifactRecord> {
    sort_by_time(arts.filter(|a: ArtifactRecord| a.job_run_id@ == job_id))
}

pub open spec fn record_texts(s: Seq<ArtifactRecord>) -> Seq<(Seq<char>, Seq<char>)> {
    s.map_values(|a: ArtifactRecord| (a.name@, a.content@))
}

/// The name and content of each artifact of the job `job_id`, oldest first.
pub open spec fn artifacts_of(arts: Seq<ArtifactRecord>, job_id: Seq<char>) -> Seq<
    (Seq<char>, Seq<char>),
> {
    record_texts(artifact_records_of(arts, job_id))
}

/// Inserts `a` into `out` after every record created no later.
fn insert_by_time(out: &mut Vec<ArtifactRecord>, a: ArtifactRecord)
    requires
        sorted_by_time(old(out)@),
    ensures
        sorted_by_time(final(out)@),
        final(out)@ == old(out)@.insert(time_pos(old(out)@, a), a),
{
    let mut p: usize = out.len();
    proof {
        assert(out@.subrange(0, p as int) =~= out@);
    }
    while p > 0 && out[p - 1].created_at > a.created_at
        invariant
            p <= out@.len(),
            out@ == old(out)@,
            sorted_by_time(out@),
            time_pos(out@, a) == time_pos(out@.subrange(0, p as int), a),
            forall|q: int| p <= q < out@.len() ==> #[trigger] out@[q].created_at > a.created_at,
        decreases p,
    {
        proof {
            assert(out@.subrange(0, p as int).drop_last() =~= out@.subrange(0, p - 1));
        }
        p -= 1;
    }
    proof {
        assert(out@.subrange(0, p as int).len() == p);
        if p > 0 {
            assert(out@.subrange(0, p as int).last() == out@[p - 1]);
        }
        assert(time_pos(out@, a) == p);
    }
    let ghost before = out@;
    proof {
        if p > 0 {
            assert forall|q: int| 0 <= q < p implies #[trigger] before[q].created_at <= a.created_at by {
                if q < p - 1 {
                    assert(before[q].created_at <= before[p - 1].created_at);
                }
            }
        }
    }
    out.insert(p, a);
    proof {
        let s = out@;
        assert(s == before.insert(p as int, a));
        assert forall|x: int, y: int| 0 <= x < y < s.len() implies #[trigger] s[x].created_at
            <= #[trigger] s[y].created_at by {
            if y < p {
                assert(s[x] == before[x] && s[y] == before[y]);
            } else if y == p {
                assert(s[x] == before[x]);
            } else if x < p {
                assert(s[x] == before[x] && s[y] == before[y - 1]);
                assert(before[x].created_at <= a.created_at);
            } else if x == p {
                assert(s[y] == before[y - 1]);
            } else {
                assert(s[x] == before[x - 1] && s[y] == before[y - 1]);
            }
        }
    }
}

pub open spec fn artifact_texts(arts: Seq<JobArtifact>) -> Seq<(Seq<char>, Seq<char>)> {
    arts.map_values(|a: JobArtifact| (a.name@, a.content@))
}

/// Two latest runs of one name are the same run.
pub proof fn latest_is_unique(runs: Seq<PipelineRun>, name: Seq<char>, i: int, j: int)
    requires
        is_latest(runs, name, i),
        is_latest(runs, name, j),
    ensures
        i == j,
{
    if i < j {
        assert(runs[j].pipeline_name@ == name);
    } else if j < i {
        assert(runs[i].pipeline_name@ == name);
    }
}

/// Two answers to the same status query on an unchanged store are equal:
/// they name the same run and list the same job runs in the same order.
pub proof fn status_query_is_stable(
    store: RunStore,
    name: Seq<char>,
    i: int,
    j: int,
    a: Seq<JobRun>,
    b: Seq<JobRun>,
)
    requires
        is_latest(store.runs@, name, i),
        is_latest(store.runs@, name, j),
        a == sort_by_index(jobs_of(store.jobs@, store.runs@[i].id@)),
        b == sort_by_index(jobs_of(store.jobs@, store.runs@[j].id@)),
    ensures
        store.runs@[i] == store.runs@[j],
        a == b,
{
    latest_is_unique(store.runs@, name, i, j);
}

fn latest_run(runs: &Vec<PipelineRun>, name: &str) -> (r: Option<usize>)
    ensures
        r is None <==> !has_run_named(runs@, name@),
        r matches Some(i) ==> is_latest(runs@, name@, i as int),
{
    let key = name.to_owned();
    let mut best: Option<usize> = None;
    let mut k: usize = 0;
    while k < runs.len()
        invariant
            k <= runs@.len(),
            key@ == name@,
            best is None <==> !has_run_named(runs@.subrange(0, k as int), name@),
            best matches Some(b) ==> b < k && is_latest(runs@.subrange(0, k as int), name@, b as int),
        decreases runs@.len() - k,
    {
        let ghost pre = runs@.subrange(0, k as int);
        let ghost next = runs@.subrange(0, k + 1);
        if runs[k].pipeline_name == key {
            let later = match best {
                None => true,
                Some(b) => runs[k].start_time >= runs[b].start_time,
            };
            if later {
                best = Some(k);
            }
            proof {
                assert(next[k as int].pipeline_name@ == name@);
            }
        }
        proof {
            assert forall|q: int| 0 <= q < k implies #[trigger] next[q] == pre[q] by {}
            if best is None {
                assert forall|q: int| 0 <= q < next.len() implies #[trigger] next[q].pipeline_name@
                    != name@ by {
                    if q < k {
                        assert(next[q] == pre[q]);
                    }
                }
            }
        }
        k += 1;
    }
    proof {
        assert(runs@.subrange(0, runs@.len() as int) =~= runs@);
    }
    best
}

/// Inserts `job` into `out` after every entry of no greater index.
fn insert_by_index(out: &mut Vec<JobRun>, job: JobRun)
    requires
        sorted_by_index(old(out)@),
    ensures
        sorted_by_index(final(out)@),
        final(out)@.to_multiset() == old(out)@.to_multiset().insert(job),
        final(out)@ == old(out)@.insert(insert_pos(old(out)@, job), job),
{
    let mut p: usize = out.len();
    proof {
        assert(out@.subrange(0, p as int) =~= out@);
    }
    while p > 0 && out[p - 1].job_index > job.job_index
        invariant
            p <= out@.len(),
            out@ == old(out)@,
            insert_pos(out@, job) == insert_pos(out@.subrange(0, p as int), job),
            sorted_by_index(out@),
            forall|q: int| p <= q < out@.len() ==> #[trigger] out@[q].job_index > job.job_index,
        decreases p,
    {
        proof {
            assert(out@.subrange(0, p as int).drop_last() =~= out@.subrange(0, p - 1));
        }
        p -= 1;
    }
    proof {
        assert(out@.subrange(0, p as int).len() == p);
        if p > 0 {
            assert(out@.subrange(0, p as int).last() == out@[p - 1]);
        }
        assert(insert_pos(out@, job) == p);
    }
    let ghost before = out@;
    proof {
        if p > 0 {
            assert forall|q: int| 0 <= q < p implies #[trigger] before[q].job_index <= job.job_index by {
                if q < p - 1 {
                    assert(before[q].job_index <= before[p - 1].job_index);
                }
            }
        }
    }
    out.insert(p, job);
    proof {
        let s = out@;
        assert(s == before.insert(p as int, job));
        assert forall|a: int, b: int| 0 <= a < b < s.len() implies #[trigger] s[a].job_index
            <= #[trigger] s[b].job_index by {
            if b < p {
                assert(s[a] == before[a] && s[b] == before[b]);
            } else if b == p {
                assert(s[a] == before[a]);
            } else if a < p {
                assert(s[a] == before[a] && s[b] == before[b - 1]);
                assert(before[a].job_index <= job.job_index);
            } else if a == p {
                assert(s[b] == before[b - 1]);
            } else {
                assert(s[a] == before[a - 1] && s[b] == before[b - 1]);
            }
        }
    }
}

/// The latest run named `pipeline_name`, with all of its job runs in
/// ascending `job_index`; `None` when no run has that name. The store is
/// only read, so asking twice gives the same answer.
pub fn get_pipeline_status(store: &RunStore, pipeline_name: &str) -> (r: Option<
    (PipelineRun, Vec<JobRun>),
>)
    requires
        store.wf(),
    ensures
        r is None <==> !has_run_named(store.runs@, pipeline_name@),
        r matches Some((run, jobs)) ==> exists|i: int|
            is_latest(store.runs@, pipeline_name@, i) && run == #[trigger] store.runs@[i]
                && jobs@ == sort_by_index(jobs_of(store.jobs@, run.id@)) && strictly_sorted_by_index(
                jobs@,
            ) && jobs@.to_multiset() == jobs_of(store.jobs@, run.id@).to_multiset(),
{
    let i = match latest_run(&store.runs, pipeline_name) {
        None => return None,
        Some(i) => i,
    };
    let run = store.runs[i].snapshot();
    let mut jobs: Vec<JobRun> = Vec::new();
    let mut k: usize = 0;
    while k < store.jobs.len()
        invariant
            k <= store.jobs@.len(),
            sorted_by_index(jobs@),
            jobs@.to_multiset() == jobs_of(store.jobs@.subrange(0, k as int), run.id@).to_multiset(),
            jobs@ == sort_by_index(jobs_of(store.jobs@.subrange(0, k as int), run.id@)),
            store.wf(),
            forall|q: int|
                0 <= q < jobs@.len() ==> exists|p: int|
                    0 <= p < k && store.jobs@[p] == #[trigger] jobs@[q] && store.jobs@[p].pipeline_run_id@
                        == run.id@,
            forall|a: int, b: int|
                0 <= a < b < jobs@.len() ==> #[trigger] jobs@[a].job_index != #[trigger] jobs@[b].job_index,
        decreases store.jobs@.len() - k,
    {
        proof {
            assert(store.jobs@.subrange(0, k + 1) =~= store.jobs@.subrange(0, k as int).push(
                store.jobs@[k as int],
            ));
            store.jobs@.subrange(0, k as int).lemma_filter_push(
                store.jobs@[k as int],
                |j: JobRun| j.pipeline_run_id@ == run.id@,
            );
        }
        if store.jobs[k].pipeline_run_id == run.id {
            let job = store.jobs[k].snapshot();
            proof {
                let f = jobs_of(store.jobs@.subrange(0, k + 1), run.id@);
                assert(f.drop_last() == jobs_of(store.jobs@.subrange(0, k as int), run.id@));
                assert(f.last() == job);
            }
            let ghost prev = jobs@;
            proof {
                assert forall|q: int| 0 <= q < prev.len() implies #[trigger] prev[q].job_index != job.job_index by {
                    let p = choose|p: int|
                        0 <= p < k && store.jobs@[p] == #[trigger] prev[q] && store.jobs@[p].pipeline_run_id@
                            == run.id@;
                    assert(store.jobs@[p].pipeline_run_id@ == store.jobs@[k as int].pipeline_run_id@);
                    assert(links(store.runs@, store.jobs@, store.artifacts@));
                }
            }
            insert_by_index(&mut jobs, job);
            proof {
                let pos = insert_pos(prev, job);
                insert_pos_bounds(prev, job);
                assert(jobs@ == prev.insert(pos, job));
                assert forall|q: int| 0 <= q < jobs@.len() implies exists|p: int|
                    0 <= p < k + 1 && store.jobs@[p] == #[trigger] jobs@[q] && store.jobs@[p].pipeline_run_id@
                        == run.id@ by {
                    if q == pos {
                        assert(store.jobs@[k as int] == jobs@[q]);
                    } else {
                        let o = if q < pos { q } else { q - 1 };
                        assert(jobs@[q] == prev[o]);
                        let p = choose|p: int|
                            0 <= p < k && store.jobs@[p] == #[trigger] prev[o] && store.jobs@[p].pipeline_run_id@
                                == run.id@;
                        assert(store.jobs@[p] == jobs@[q]);
                    }
                }
                assert forall|a: int, b: int| 0 <= a < b < jobs@.len() implies #[trigger] jobs@[a].job_index
                    != #[trigger] jobs@[b].job_index by {
                    let pa = if a < pos { a } else if a == pos { -1 } else { a - 1 };
                    let pb = if b < pos { b } else if b == pos { -1 } else { b - 1 };
                    if pa >= 0 && pb >= 0 {
                        assert(jobs@[a] == prev[pa] && jobs@[b] == prev[pb]);
                    } else if pa < 0 {
                        assert(jobs@[b] == prev[pb]);
                    } else {
                        assert(jobs@[a] == prev[pa]);
                    }
                }
            }
        }
        k += 1;
    }
    proof {
        assert(store.jobs@.subrange(0, store.jobs@.len() as int) =~= store.jobs@);
        assert forall|a: int, b: int| 0 <= a < b < jobs@.len() implies #[trigger] jobs@[a].job_index
            < #[trigger] jobs@[b].job_index by {
            assert(jobs@[a].job_index <= jobs@[b].job_index);
        }
    }
    Some((run, jobs))
}

/// The job run `job_id` with the name and content of each of its artifacts,
/// oldest first (those created at the same time in the order they were
/// saved); `NotFound` when there is no such job.
pub fn get_job_with_artifacts(store: &RunStore, job_id: &str) -> (r: Result<JobDetails, StoreError>)
    requires
        store.wf(),
    ensures
        job_pos(store.jobs@, job_id@) is None ==> r == Err::<JobDetails, StoreError>(
            StoreError::NotFound,
        ),
        job_pos(store.jobs@, job_id@) matches Some(i) ==> r matches Ok(d) && ({
            let j = store.jobs@[i];
            &&& d.id == j.id
            &&& d.pipeline_run_id == j.pipeline_run_id
            &&& d.name == j.job_name
            &&& d.index == j.job_index
            &&& d.status == j.status
            &&& d.start_time == j.start_time
            &&& d.end_time == j.end_time
            &&& d.duration_seconds == j.duration_seconds
            &&& d.output == j.output
            &&& artifact_texts(d.artifacts@) == artifacts_of(store.artifacts@, job_id@)
            &&& sorted_by_time(artifact_records_of(store.artifacts@, job_id@))
        }),
{
    let i = match store.find_job(job_id) {
        None => return Err(StoreError::NotFound),
        Some(i) => i,
    };
    let job = store.jobs[i].snapshot();
    let key = job_id.to_owned();
    let ghost pred = |a: ArtifactRecord| a.job_run_id@ == job_id@;
    let mut sorted: Vec<ArtifactRecord> = Vec::new();
    let mut k: usize = 0;
    while k < store.artifacts.len()
        invariant
            k <= store.artifacts@.len(),
            key@ == job_id@,
            pred == (|a: ArtifactRecord| a.job_run_id@ == job_id@),
            sorted_by_time(sorted@),
            sorted@ == sort_by_time(store.artifacts@.subrange(0, k as int).filter(pred)),
        decreases store.artifacts@.len() - k,
    {
        proof {
            assert(store.artifacts@.subrange(0, k + 1) =~= store.artifacts@.subrange(0, k as int).push(
                store.artifacts@[k as int],
            ));
            store.artifacts@.subrange(0, k as int).lemma_filter_push(store.artifacts@[k as int], pred);
        }
        if store.artifacts[k].job_run_id == key {
            let a = store.artifacts[k].snapshot();
            proof {
                let f = store.artifacts@.subrange(0, k + 1).filter(pred);
                assert(f.drop_last() == store.artifacts@.subrange(0, k as int).filter(pred));
                assert(f.last() == a);
            }
            insert_by_time(&mut sorted, a);
        }
        k += 1;
    }
    proof {
        assert(store.artifacts@.subrange(0, store.artifacts@.len() as int) =~= store.artifacts@);
    }
    let mut artifacts: Vec<JobArtifact> = Vec::new();
    let mut m: usize = 0;
    while m < sorted.len()
        invariant
            m <= sorted@.len(),
            artifact_texts(artifacts@) == record_texts(sorted@.subrange(0, m as int)),
        decreases sorted@.len() - m,
    {
        let a = JobArtifact { name: sorted[m].name.clone(), content: sorted[m].content.clone() };
        let ghost prev = artifacts@;
        artifacts.push(a);
        proof {
            assert(artifact_texts(artifacts@) =~= artifact_texts(prev).push((a.name@, a.content@)));
            assert(record_texts(sorted@.subrange(0, m + 1)) =~= record_texts(sorted@.subrange(0, m as int)).push(
                (sorted@[m as int].name@, sorted@[m as int].content@),
            ));
        }
        m += 1;
    }
    proof {
        assert(sorted@.subrange(0, sorted@.len() as int) =~= sorted@);
    }
    Ok(
        JobDetails {
            id: job.id,
            pipeline_run_id: job.pipeline_run_id,
            name: job.job_name,
            index: job.job_index,
            status: job.status,
            start_time: job.start_time,
            end_time: job.end_time,
            duration_seconds: job.duration_seconds,
            output: job.output,
            artifacts,
        },
    )
}

/// The output recorded for the job run `job_id`, `None` while it has none;
/// `NotFound` when there is no such job.
pub fn get_job_output(store: &RunStore, job_id: &str) -> (r: Result<Option<String>, StoreError>)
    requires
        store.wf(),
    ensures
        job_pos(store.jobs@, job_id@) is None ==> r == Err::<Option<String>, StoreError>(
            StoreError::NotFound,
        ),
        job_pos(store.jobs@, job_id@) matches Some(i) ==> r matches Ok(o) && text_of(o) == text_of(
            store.jobs@[i].output,
        ),
{
    match store.find_job(job_id) {
        None => Err(StoreError::NotFound),
        Some(i) => match &store.jobs[i].output {
            Some(o) => Ok(Some(o.clone())),
            None => Ok(None),
        },
    }
}

} // verus!
