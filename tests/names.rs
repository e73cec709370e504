use pipeline_engine::file::{extract_repo_name, repo_to_filename};
use pipeline_engine::models::{AddTargetRequest, Target, Targets};
use pipeline_engine::status::{JobStatus, PipelineStatus};

#[test]
fn repo_name_from_url() {
    assert_eq!(extract_repo_name("https://github.com/acme/widget.git"), "widget");
    assert_eq!(extract_repo_name("https://github.com/acme/widget"), "widget");
    assert_eq!(extract_repo_name("widget.git.git"), "widget");
    assert_eq!(extract_repo_name("acme/"), "");
    assert_eq!(extract_repo_name(""), "");
    assert_eq!(extract_repo_name("git@host:team/tool.git"), "tool");
}

#[test]
fn file_name_from_repo_and_branch() {
    assert_eq!(repo_to_filename("https://github.com/acme/widget.git", "main"), "widget_main.yml");
    assert_eq!(repo_to_filename("https://github.com/acme/widget.git", "feature/x/y"), "widget_feature_x_y.yml");
    assert_eq!(repo_to_filename("w", ""), "w_.yml");
}

#[test]
fn status_names_round_trip() {
    for s in [
        JobStatus::Pending,
        JobStatus::Running,
        JobStatus::Succeeded,
        JobStatus::Failed,
        JobStatus::Cancelled,
        JobStatus::Skipped,
    ] {
        assert_eq!(JobStatus::parse(s.as_str()), Some(s));
    }
    for s in [
        PipelineStatus::Pending,
        PipelineStatus::Running,
        PipelineStatus::Completed,
        PipelineStatus::Failed,
        PipelineStatus::Cancelled,
    ] {
        assert_eq!(PipelineStatus::parse(&s.to_string()), Some(s));
    }
    assert_eq!(JobStatus::Succeeded.as_str(), "succeeded");
    assert_eq!(PipelineStatus::Completed.as_str(), "completed");
}

#[test]
fn unknown_status_names_are_rejected() {
    assert_eq!(JobStatus::parse("\"failed\""), None);
    assert_eq!(JobStatus::parse("Failed"), None);
    assert_eq!(JobStatus::parse("completed"), None);
    assert_eq!(PipelineStatus::parse("succeeded"), None);
    assert_eq!(PipelineStatus::parse(""), None);
}

#[test]
fn terminal_statuses() {
    assert!(!JobStatus::Pending.is_terminal());
    assert!(!JobStatus::Running.is_terminal());
    assert!(JobStatus::Skipped.is_terminal());
    assert!(JobStatus::Cancelled.is_terminal());
    assert!(PipelineStatus::Completed.is_terminal());
    assert!(!PipelineStatus::Running.is_terminal());
}

fn targets() -> Targets {
    Targets {
        targets: vec![Target {
            name: "widget".to_string(),
            repository: "https://h/acme/widget.git".to_string(),
            branch: "main".to_string(),
        }],
    }
}

#[test]
fn new_target_uses_repo_name_by_default() {
    let t = targets();
    let req = AddTargetRequest {
        repository: "https://h/acme/gadget.git".to_string(),
        branch: "dev".to_string(),
        name: None,
    };
    let n = t.new_target(&req).unwrap();
    assert_eq!(n.name, "gadget");
    assert_eq!(n.branch, "dev");
}

#[test]
fn new_target_rejects_taken_name() {
    let t = targets();
    let same = AddTargetRequest {
        repository: "https://h/other/widget.git".to_string(),
        branch: "dev".to_string(),
        name: None,
    };
    assert!(t.new_target(&same).is_none());
    let named = AddTargetRequest {
        repository: "https://h/other/widget.git".to_string(),
        branch: "dev".to_string(),
        name: Some("widget2".to_string()),
    };
    assert_eq!(t.new_target(&named).unwrap().name, "widget2");
    assert_eq!(t.find("widget"), Some(0));
    assert_eq!(t.find("nope"), None);
}
