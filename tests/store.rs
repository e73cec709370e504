use pipeline_engine::aggregate::aggregate_status;
use pipeline_engine::query::{get_job_output, get_job_with_artifacts, get_pipeline_status};
use pipeline_engine::status::{JobStatus, PipelineStatus};
use pipeline_engine::store::{
    create_job_run, create_job_run_at, create_pipeline_run, create_pipeline_run_at,
    save_job_artifact, save_job_artifact_at, update_job_status, update_job_status_at,
    update_pipeline_progress, update_pipeline_progress_at, RunStore, StoreError,
};

fn store_with_run(total: i32) -> (RunStore, Vec<String>) {
    let mut store = RunStore::new();
    create_pipeline_run_at(&mut store, "run".to_string(), 100, "pipe", "repo", "main", total).unwrap();
    let mut ids = vec![];
    for i in 0..total {
        let id = format!("job{}", i);
        create_job_run_at(&mut store, id.clone(), 100, "run", &format!("j{}", i), i).unwrap();
        ids.push(id);
    }
    (store, ids)
}

#[test]
fn aggregate_rules() {
    assert_eq!(aggregate_status(3, 2, 1), PipelineStatus::Failed);
    assert_eq!(aggregate_status(3, 0, 1), PipelineStatus::Failed);
    assert_eq!(aggregate_status(3, 3, 0), PipelineStatus::Completed);
    assert_eq!(aggregate_status(3, 2, 0), PipelineStatus::Running);
    assert_eq!(aggregate_status(0, 0, 0), PipelineStatus::Completed);
}

#[test]
fn new_run_is_pending() {
    let mut store = RunStore::new();
    let id = create_pipeline_run_at(&mut store, "r1".to_string(), 42, "p", "repo", "dev", 3).unwrap();
    assert_eq!(id, "r1");
    let run = &store.runs[0];
    assert_eq!(run.status, PipelineStatus::Pending);
    assert_eq!(run.start_time, 42);
    assert_eq!(run.current_job_index, 0);
    assert_eq!(run.total_jobs, 3);
    assert_eq!(run.end_time, None);
    assert_eq!(run.duration_seconds, None);
}

#[test]
fn taken_run_id_is_a_storage_error() {
    let mut store = RunStore::new();
    create_pipeline_run_at(&mut store, "r1".to_string(), 1, "p", "repo", "dev", 1).unwrap();
    let again = create_pipeline_run_at(&mut store, "r1".to_string(), 2, "p", "repo", "dev", 1);
    assert_eq!(again, Err(StoreError::Storage));
    assert_eq!(store.runs.len(), 1);
}

#[test]
fn job_of_missing_run_is_not_found() {
    let mut store = RunStore::new();
    assert_eq!(create_job_run_at(&mut store, "j".to_string(), 1, "nope", "a", 0), Err(StoreError::NotFound));
    assert!(store.jobs.is_empty());
}

#[test]
fn taken_job_id_is_a_storage_error() {
    let (mut store, _) = store_with_run(1);
    assert_eq!(create_job_run_at(&mut store, "job0".to_string(), 1, "run", "x", 0), Err(StoreError::Storage));
}

#[test]
fn update_of_missing_job_is_not_found() {
    let (mut store, _) = store_with_run(1);
    assert_eq!(
        update_job_status_at(&mut store, "ghost", JobStatus::Succeeded, None, 200),
        Err(StoreError::NotFound)
    );
    assert_eq!(update_job_status(&mut store, "ghost", JobStatus::Failed, None), Err(StoreError::NotFound));
}

#[test]
fn progress_of_missing_run_is_not_found() {
    let (mut store, _) = store_with_run(1);
    assert_eq!(update_pipeline_progress_at(&mut store, "ghost", 5), Err(StoreError::NotFound));
    assert_eq!(update_pipeline_progress(&mut store, "ghost"), Err(StoreError::NotFound));
}

#[test]
fn job_update_sets_end_and_duration() {
    let (mut store, ids) = store_with_run(2);
    update_job_status_at(&mut store, &ids[0], JobStatus::Succeeded, Some("built"), 130).unwrap();
    let j = &store.jobs[0];
    assert_eq!(j.status, JobStatus::Succeeded);
    assert_eq!(j.end_time, Some(130));
    assert_eq!(j.duration_seconds, Some(30));
    assert_eq!(j.output.as_deref(), Some("built"));
    let run = &store.runs[0];
    assert_eq!(run.status, PipelineStatus::Running);
    assert_eq!(run.current_job_index, 1);
    assert_eq!(run.end_time, None);
}

#[test]
fn running_update_does_not_recompute_run() {
    let (mut store, ids) = store_with_run(2);
    update_job_status_at(&mut store, &ids[0], JobStatus::Running, None, 110).unwrap();
    assert_eq!(store.jobs[0].status, JobStatus::Running);
    assert_eq!(store.runs[0].status, PipelineStatus::Pending);
    assert_eq!(store.runs[0].current_job_index, 0);
}

#[test]
fn run_completes_when_all_jobs_succeed() {
    let (mut store, ids) = store_with_run(2);
    update_job_status_at(&mut store, &ids[0], JobStatus::Succeeded, None, 110).unwrap();
    update_job_status_at(&mut store, &ids[1], JobStatus::Succeeded, None, 150).unwrap();
    let run = &store.runs[0];
    assert_eq!(run.status, PipelineStatus::Completed);
    assert_eq!(run.current_job_index, 2);
    assert_eq!(run.end_time, Some(150));
    assert_eq!(run.duration_seconds, Some(50));
}

#[test]
fn any_failure_fails_run_despite_successes() {
    let (mut store, ids) = store_with_run(3);
    update_job_status_at(&mut store, &ids[0], JobStatus::Succeeded, None, 110).unwrap();
    update_job_status_at(&mut store, &ids[1], JobStatus::Succeeded, None, 120).unwrap();
    update_job_status_at(&mut store, &ids[2], JobStatus::Failed, None, 130).unwrap();
    assert_eq!(store.runs[0].status, PipelineStatus::Failed);
    assert_eq!(store.runs[0].current_job_index, 3);
}

#[test]
fn skipped_job_keeps_run_from_completing() {
    let (mut store, ids) = store_with_run(2);
    update_job_status_at(&mut store, &ids[0], JobStatus::Succeeded, None, 110).unwrap();
    update_job_status_at(&mut store, &ids[1], JobStatus::Skipped, None, 120).unwrap();
    assert_eq!(store.runs[0].status, PipelineStatus::Running);
    assert_eq!(store.runs[0].end_time, None);
}

#[test]
fn end_time_is_frozen_once_set() {
    let (mut store, ids) = store_with_run(2);
    update_job_status_at(&mut store, &ids[0], JobStatus::Failed, None, 110).unwrap();
    assert_eq!(store.runs[0].end_time, Some(110));
    update_job_status_at(&mut store, &ids[1], JobStatus::Succeeded, None, 500).unwrap();
    update_pipeline_progress_at(&mut store, "run", 900).unwrap();
    let run = &store.runs[0];
    assert_eq!(run.end_time, Some(110));
    assert_eq!(run.duration_seconds, Some(10));
    assert_eq!(run.status, PipelineStatus::Failed);
}

#[test]
fn job_index_never_goes_down() {
    let (mut store, ids) = store_with_run(2);
    update_job_status_at(&mut store, &ids[0], JobStatus::Succeeded, None, 110).unwrap();
    assert_eq!(store.runs[0].current_job_index, 1);
    update_job_status_at(&mut store, &ids[0], JobStatus::Pending, None, 120).unwrap();
    update_pipeline_progress_at(&mut store, "run", 130).unwrap();
    assert_eq!(store.runs[0].current_job_index, 1);
    assert!(store.runs[0].current_job_index <= store.runs[0].total_jobs);
}

#[test]
fn job_index_capped_at_total() {
    let mut store = RunStore::new();
    create_pipeline_run_at(&mut store, "run".to_string(), 0, "p", "r", "b", 1).unwrap();
    create_job_run_at(&mut store, "a".to_string(), 0, "run", "a", 0).unwrap();
    create_job_run_at(&mut store, "b".to_string(), 0, "run", "b", 1).unwrap();
    update_job_status_at(&mut store, "a", JobStatus::Succeeded, None, 1).unwrap();
    update_job_status_at(&mut store, "b", JobStatus::Succeeded, None, 2).unwrap();
    assert_eq!(store.runs[0].current_job_index, 1);
    assert_eq!(store.runs[0].status, PipelineStatus::Completed);
}

#[test]
fn progress_twice_is_idempotent() {
    let (mut store, ids) = store_with_run(2);
    update_job_status_at(&mut store, &ids[0], JobStatus::Succeeded, None, 110).unwrap();
    update_pipeline_progress_at(&mut store, "run", 120).unwrap();
    let first = store.runs[0].snapshot();
    update_pipeline_progress_at(&mut store, "run", 140).unwrap();
    let second = store.runs[0].snapshot();
    assert_eq!(first.status, second.status);
    assert_eq!(first.current_job_index, second.current_job_index);
    assert_eq!(first.end_time, second.end_time);
}

#[test]
fn status_query_twice_gives_same_answer() {
    let (mut store, ids) = store_with_run(2);
    update_job_status_at(&mut store, &ids[1], JobStatus::Succeeded, None, 110).unwrap();
    let (r1, j1) = get_pipeline_status(&store, "pipe").unwrap();
    let (r2, j2) = get_pipeline_status(&store, "pipe").unwrap();
    assert_eq!(r1.id, r2.id);
    assert_eq!(r1.status, r2.status);
    assert_eq!(r1.current_job_index, r2.current_job_index);
    let a: Vec<String> = j1.iter().map(|j| j.id.clone()).collect();
    let b: Vec<String> = j2.iter().map(|j| j.id.clone()).collect();
    assert_eq!(a, b);
}

#[test]
fn status_of_unknown_pipeline_is_absent() {
    let (store, _) = store_with_run(1);
    assert!(get_pipeline_status(&store, "nothing").is_none());
    assert!(get_pipeline_status(&RunStore::new(), "pipe").is_none());
}

#[test]
fn latest_run_by_start_time_wins() {
    let mut store = RunStore::new();
    create_pipeline_run_at(&mut store, "late".to_string(), 300, "p", "r", "b", 0).unwrap();
    create_pipeline_run_at(&mut store, "early".to_string(), 100, "p", "r", "b", 0).unwrap();
    create_pipeline_run_at(&mut store, "other".to_string(), 900, "q", "r", "b", 0).unwrap();
    let (run, _) = get_pipeline_status(&store, "p").unwrap();
    assert_eq!(run.id, "late");
    create_pipeline_run_at(&mut store, "tie".to_string(), 300, "p", "r", "b", 0).unwrap();
    let (run, _) = get_pipeline_status(&store, "p").unwrap();
    assert_eq!(run.id, "tie");
}

#[test]
fn jobs_come_back_in_index_order() {
    let mut store = RunStore::new();
    create_pipeline_run_at(&mut store, "run".to_string(), 0, "p", "r", "b", 3).unwrap();
    create_pipeline_run_at(&mut store, "run2".to_string(), 0, "x", "r", "b", 1).unwrap();
    create_job_run_at(&mut store, "c".to_string(), 0, "run", "c", 2).unwrap();
    create_job_run_at(&mut store, "z".to_string(), 0, "run2", "z", 0).unwrap();
    create_job_run_at(&mut store, "a".to_string(), 0, "run", "a", 0).unwrap();
    create_job_run_at(&mut store, "b".to_string(), 0, "run", "b", 1).unwrap();
    let (_, jobs) = get_pipeline_status(&store, "p").unwrap();
    let names: Vec<&str> = jobs.iter().map(|j| j.job_name.as_str()).collect();
    assert_eq!(names, vec!["a", "b", "c"]);
}

#[test]
fn artifacts_need_an_existing_job() {
    let (mut store, ids) = store_with_run(1);
    assert_eq!(
        save_job_artifact_at(&mut store, "a1".to_string(), 5, "ghost", "n", "c"),
        Err(StoreError::NotFound)
    );
    assert_eq!(save_job_artifact(&mut store, "ghost", "n", "c"), Err(StoreError::NotFound));
    save_job_artifact_at(&mut store, "a1".to_string(), 5, &ids[0], "n", "c").unwrap();
    assert_eq!(
        save_job_artifact_at(&mut store, "a1".to_string(), 6, &ids[0], "n", "d"),
        Err(StoreError::Storage)
    );
    assert_eq!(store.artifacts.len(), 1);
    assert_eq!(store.artifacts[0].created_at, 5);
}

#[test]
fn duplicate_artifact_names_are_kept() {
    let (mut store, ids) = store_with_run(1);
    save_job_artifact(&mut store, &ids[0], "log", "first").unwrap();
    save_job_artifact(&mut store, &ids[0], "log", "second").unwrap();
    let d = get_job_with_artifacts(&store, &ids[0]).unwrap();
    assert_eq!(d.artifacts.len(), 2);
    assert_eq!(d.artifacts[0].content, "first");
    assert_eq!(d.artifacts[1].content, "second");
    assert_eq!(d.index, 0);
    assert!(get_job_with_artifacts(&store, "ghost").is_err());
}

#[test]
fn job_output_lookup() {
    let (mut store, ids) = store_with_run(1);
    assert_eq!(get_job_output(&store, &ids[0]), Ok(None));
    update_job_status_at(&mut store, &ids[0], JobStatus::Succeeded, Some("hello"), 101).unwrap();
    assert_eq!(get_job_output(&store, &ids[0]), Ok(Some("hello".to_string())));
    assert_eq!(get_job_output(&store, "ghost"), Err(StoreError::NotFound));
}

#[test]
fn clock_and_ids_come_from_outside() {
    let mut store = RunStore::new();
    let a = create_pipeline_run(&mut store, "p", "r", "b", 1).unwrap();
    let b = create_pipeline_run(&mut store, "p", "r", "b", 1).unwrap();
    assert_ne!(a, b);
    assert_eq!(a.len(), 36);
    assert!(store.runs[0].start_time > 1_600_000_000);
    let j = create_job_run(&mut store, &a, "job", 0).unwrap();
    assert_ne!(j, a);
    assert!(store.jobs[0].start_time >= store.runs[0].start_time);
    update_job_status(&mut store, &j, JobStatus::Succeeded, Some("x")).unwrap();
    assert_eq!(store.runs[0].status, PipelineStatus::Completed);
    assert!(store.runs[0].duration_seconds.unwrap() >= 0);
}

#[test]
fn taken_job_index_is_a_storage_error() {
    let (mut store, _) = store_with_run(2);
    assert_eq!(create_job_run_at(&mut store, "extra".to_string(), 1, "run", "x", 1), Err(StoreError::Storage));
    assert_eq!(store.jobs.len(), 2);
    create_pipeline_run_at(&mut store, "run2".to_string(), 1, "pipe2", "repo", "main", 1).unwrap();
    create_job_run_at(&mut store, "other".to_string(), 1, "run2", "x", 1).unwrap();
}

#[test]
fn artifacts_come_back_oldest_first() {
    let (mut store, ids) = store_with_run(1);
    save_job_artifact_at(&mut store, "a1".to_string(), 50, &ids[0], "late", "1").unwrap();
    save_job_artifact_at(&mut store, "a2".to_string(), 10, &ids[0], "early", "2").unwrap();
    save_job_artifact_at(&mut store, "a3".to_string(), 50, &ids[0], "late2", "3").unwrap();
    save_job_artifact_at(&mut store, "a4".to_string(), 30, &ids[0], "mid", "4").unwrap();
    let d = get_job_with_artifacts(&store, &ids[0]).unwrap();
    let names: Vec<&str> = d.artifacts.iter().map(|a| a.name.as_str()).collect();
    assert_eq!(names, vec!["early", "mid", "late", "late2"]);
}
