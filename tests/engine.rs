use pipeline_engine::engine::{
    apply_job_update,
    count_jobs, job_result_from_dispatch, record_result, start_pipeline_run, DispatchError,
    Execution, TriggerError,
};
use pipeline_engine::models::{Job, JobArtifact, JobResult, JobUpdate, Pipeline, Stage};
use pipeline_engine::query::{get_job_with_artifacts, get_pipeline_status};
use pipeline_engine::status::{JobStatus, PipelineStatus};
use pipeline_engine::store::RunStore;

fn job(name: &str) -> Job {
    Job {
        name: name.to_string(),
        repository: "https://example.com/app.git".to_string(),
        branch: "main".to_string(),
        commands: vec!["make".to_string()],
        inputs: vec![],
        outputs: vec![],
    }
}

fn pipeline(name: &str, stages: Vec<Vec<&str>>) -> Pipeline {
    Pipeline {
        name: name.to_string(),
        stages: stages
            .into_iter()
            .enumerate()
            .map(|(i, jobs)| Stage {
                name: format!("stage{}", i),
                jobs: jobs.into_iter().map(job).collect(),
            })
            .collect(),
    }
}

fn result(status: JobStatus, output: &str) -> JobResult {
    JobResult { id: String::new(), status, output: output.to_string(), artifacts: vec![] }
}

fn run_all(exec: &mut Execution, store: &mut RunStore, outcomes: &[JobStatus]) -> usize {
    let mut dispatched = 0;
    let mut k = 0;
    while let Some(i) = exec.next_job() {
        assert_eq!(i, k);
        let r = result(outcomes[i], "log");
        record_result(exec, store, &r).unwrap();
        dispatched += 1;
        k += 1;
    }
    dispatched
}

#[test]
fn one_stage_two_jobs_all_succeed() {
    let mut store = RunStore::new();
    let p = pipeline("build", vec![vec!["compile", "test"]]);
    let mut exec = start_pipeline_run(&mut store, &p, "https://example.com/app.git", "main").unwrap();
    assert_eq!(exec.job_ids.len(), 2);
    let n = run_all(&mut exec, &mut store, &[JobStatus::Succeeded, JobStatus::Succeeded]);
    assert_eq!(n, 2);
    let (run, jobs) = get_pipeline_status(&store, "build").unwrap();
    assert_eq!(run.status, PipelineStatus::Completed);
    assert_eq!(run.current_job_index, 2);
    assert_eq!(run.total_jobs, 2);
    assert!(run.end_time.is_some());
    assert_eq!(run.duration_seconds, Some(run.end_time.unwrap() - run.start_time));
    assert_eq!(jobs.len(), 2);
    assert_eq!(jobs[0].job_name, "compile");
    assert_eq!(jobs[1].job_name, "test");
    assert!(jobs.iter().all(|j| j.status == JobStatus::Succeeded));
}

#[test]
fn first_stage_failure_leaves_later_job_pending() {
    let mut store = RunStore::new();
    let p = pipeline("deploy", vec![vec!["build"], vec!["ship"]]);
    let mut exec = start_pipeline_run(&mut store, &p, "https://example.com/app.git", "main").unwrap();
    let n = run_all(&mut exec, &mut store, &[JobStatus::Failed, JobStatus::Succeeded]);
    assert_eq!(n, 1);
    assert!(exec.halted);
    assert_eq!(exec.next_job(), None);
    let (run, jobs) = get_pipeline_status(&store, "deploy").unwrap();
    assert_eq!(run.status, PipelineStatus::Failed);
    assert_eq!(run.current_job_index, 1);
    assert_eq!(jobs[0].status, JobStatus::Failed);
    assert_eq!(jobs[1].status, JobStatus::Pending);
    assert_eq!(jobs[1].end_time, None);
    assert_eq!(jobs[1].output, None);
}

#[test]
fn failure_in_middle_of_stage_stops_rest_of_stage_and_later_stages() {
    let mut store = RunStore::new();
    let p = pipeline("mixed", vec![vec!["a", "b", "c"], vec!["d"]]);
    let mut exec = start_pipeline_run(&mut store, &p, "r", "b").unwrap();
    let n = run_all(
        &mut exec,
        &mut store,
        &[JobStatus::Succeeded, JobStatus::Failed, JobStatus::Succeeded, JobStatus::Succeeded],
    );
    assert_eq!(n, 2);
    let (run, jobs) = get_pipeline_status(&store, "mixed").unwrap();
    assert_eq!(run.status, PipelineStatus::Failed);
    assert_eq!(run.current_job_index, 2);
    let statuses: Vec<JobStatus> = jobs.iter().map(|j| j.status).collect();
    assert_eq!(
        statuses,
        vec![JobStatus::Succeeded, JobStatus::Failed, JobStatus::Pending, JobStatus::Pending]
    );
    let indices: Vec<i32> = jobs.iter().map(|j| j.job_index).collect();
    assert_eq!(indices, vec![0, 1, 2, 3]);
}

#[test]
fn transport_failure_becomes_failed_job() {
    let r = job_result_from_dispatch("job-1", Err(DispatchError::Transport("timed out".to_string())));
    assert_eq!(r.id, "job-1");
    assert_eq!(r.status, JobStatus::Failed);
    assert_eq!(r.output, "Failed to communicate with worker: timed out");
    assert!(r.artifacts.is_empty());
}

#[test]
fn decode_failure_becomes_failed_job() {
    let r = job_result_from_dispatch("job-2", Err(DispatchError::Decode("bad json".to_string())));
    assert_eq!(r.status, JobStatus::Failed);
    assert_eq!(r.output, "Failed to parse worker response: bad json");
}

#[test]
fn worker_result_is_kept() {
    let worker = JobResult {
        id: "other".to_string(),
        status: JobStatus::Succeeded,
        output: "ok".to_string(),
        artifacts: vec![JobArtifact { name: "a".to_string(), content: "x".to_string() }],
    };
    let r = job_result_from_dispatch("job-3", Ok(worker));
    assert_eq!(r.id, "job-3");
    assert_eq!(r.status, JobStatus::Succeeded);
    assert_eq!(r.output, "ok");
    assert_eq!(r.artifacts.len(), 1);
}

#[test]
fn other_worker_status_counts_as_failure() {
    for status in [JobStatus::Cancelled, JobStatus::Skipped, JobStatus::Pending, JobStatus::Running] {
        let r = job_result_from_dispatch("job-4", Ok(result(status, "odd")));
        assert_eq!(r.status, JobStatus::Failed);
        assert_eq!(r.output, "odd");
    }
}

#[test]
fn dispatch_error_fails_the_run() {
    let mut store = RunStore::new();
    let p = pipeline("net", vec![vec!["only"], vec!["after"]]);
    let mut exec = start_pipeline_run(&mut store, &p, "r", "b").unwrap();
    let i = exec.next_job().unwrap();
    let r = job_result_from_dispatch(
        &exec.job_ids[i].clone(),
        Err(DispatchError::Transport("connection refused".to_string())),
    );
    record_result(&mut exec, &mut store, &r).unwrap();
    assert_eq!(exec.next_job(), None);
    let (run, jobs) = get_pipeline_status(&store, "net").unwrap();
    assert_eq!(run.status, PipelineStatus::Failed);
    assert_eq!(jobs[0].status, JobStatus::Failed);
    let out = jobs[0].output.clone().unwrap();
    assert!(out.contains("connection refused"));
    assert_eq!(jobs[1].status, JobStatus::Pending);
}

#[test]
fn artifacts_of_a_result_are_saved() {
    let mut store = RunStore::new();
    let p = pipeline("arts", vec![vec!["one"]]);
    let mut exec = start_pipeline_run(&mut store, &p, "r", "b").unwrap();
    let r = JobResult {
        id: String::new(),
        status: JobStatus::Succeeded,
        output: "done".to_string(),
        artifacts: vec![
            JobArtifact { name: "report".to_string(), content: "1".to_string() },
            JobArtifact { name: "report".to_string(), content: "2".to_string() },
        ],
    };
    record_result(&mut exec, &mut store, &r).unwrap();
    let d = get_job_with_artifacts(&store, &exec.job_ids[0]).unwrap();
    assert_eq!(d.output.as_deref(), Some("done"));
    assert_eq!(d.artifacts.len(), 2);
    assert_eq!(d.artifacts[0].content, "1");
    assert_eq!(d.artifacts[1].content, "2");
}

#[test]
fn job_count_spans_all_stages() {
    let p = pipeline("c", vec![vec!["a", "b"], vec![], vec!["c"]]);
    assert_eq!(count_jobs(&p), Some(3));
    let empty = pipeline("e", vec![]);
    assert_eq!(count_jobs(&empty), Some(0));
}

#[test]
fn empty_pipeline_starts_with_no_jobs() {
    let mut store = RunStore::new();
    let p = pipeline("empty", vec![]);
    let exec = start_pipeline_run(&mut store, &p, "r", "b").unwrap();
    assert_eq!(exec.next_job(), None);
    let (run, jobs) = get_pipeline_status(&store, "empty").unwrap();
    assert_eq!(run.status, PipelineStatus::Pending);
    assert_eq!(run.total_jobs, 0);
    assert!(jobs.is_empty());
}

#[test]
fn trigger_error_variants_differ() {
    assert_ne!(TriggerError::Configuration, TriggerError::Store(pipeline_engine::store::StoreError::Storage));
}

#[test]
fn job_update_saves_artifacts_in_order() {
    let mut store = RunStore::new();
    let p = pipeline("upd", vec![vec!["one"]]);
    let exec = start_pipeline_run(&mut store, &p, "r", "b").unwrap();
    let update = JobUpdate {
        status: JobStatus::Succeeded,
        output: Some("fine".to_string()),
        artifacts: Some(vec![
            JobArtifact { name: "a".to_string(), content: "1".to_string() },
            JobArtifact { name: "b".to_string(), content: "2".to_string() },
        ]),
    };
    apply_job_update(&mut store, &exec.job_ids[0], &update).unwrap();
    let d = get_job_with_artifacts(&store, &exec.job_ids[0]).unwrap();
    let names: Vec<&str> = d.artifacts.iter().map(|a| a.name.as_str()).collect();
    assert_eq!(names, vec!["a", "b"]);
    let (run, _) = get_pipeline_status(&store, "upd").unwrap();
    assert_eq!(run.status, PipelineStatus::Completed);
    assert!(apply_job_update(&mut store, "ghost", &update).is_err());
    assert_eq!(store.artifacts.len(), 2);
}
