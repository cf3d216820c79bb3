use taskflow::manager::TaskManager;
use taskflow::manager::default_config;
use taskflow::manager::load_config;
use taskflow::manager::load_tasks_or_empty;
use taskflow::model::Priority;
use taskflow::model::Repository;
use taskflow::model::Status;

fn fresh_manager() -> TaskManager {
    TaskManager::new(default_config(), false, Vec::new())
}

#[test]
fn add_task_without_remote_client() {
    let mut m = fresh_manager();
    m.add_task(
        "Write spec".to_string(),
        "".to_string(),
        Priority::Medium,
        "tomorrow".to_string(),
        "May 01, 2025".to_string(),
        None,
    );
    assert_eq!(m.tasks.len(), 1);
    assert_eq!(m.tasks[0].id, 0);
    assert_eq!(m.tasks[0].title, "Write spec");
    assert_eq!(m.tasks[0].description, "");
    assert!(m.tasks[0].priority == Priority::Medium);
    assert!(m.tasks[0].status == Status::Todo);
    assert_eq!(m.tasks[0].due_date, "tomorrow");
    assert!(m.tasks[0].github_issue_number.is_none());
}

#[test]
fn add_task_after_remote_issue_failure() {
    // A remote client exists, but issue creation failed: the task is still
    // appended and persisted, and the issue number stays absent.
    let mut m = TaskManager::new(default_config(), true, Vec::new());
    m.add_task(
        "Sync docs".to_string(),
        "write them".to_string(),
        Priority::High,
        "friday".to_string(),
        "May 02, 2025".to_string(),
        None,
    );
    assert_eq!(m.tasks.len(), 1);
    assert!(m.tasks[0].github_issue_number.is_none());
    let text = m.tasks_record();
    assert!(text.contains("\"github_issue_number\": null"));
    assert!(text.contains("Sync docs"));
}

#[test]
fn add_task_records_issue_number_on_success() {
    let mut m = TaskManager::new(default_config(), true, Vec::new());
    m.add_task(
        "Mirrored".to_string(),
        "".to_string(),
        Priority::Low,
        "someday".to_string(),
        "May 03, 2025".to_string(),
        Some(17),
    );
    assert_eq!(m.tasks[0].github_issue_number, Some(17));
    assert!(m.tasks_record().contains("\"github_issue_number\": 17"));
}

#[test]
fn ids_are_snapshots_of_the_count() {
    let mut m = fresh_manager();
    for k in 0..3u64 {
        m.add_task(
            format!("task {}", k),
            "".to_string(),
            Priority::Low,
            "".to_string(),
            "May 01, 2025".to_string(),
            None,
        );
    }
    assert_eq!(m.tasks.len(), 3);
    for k in 0..3usize {
        assert_eq!(m.tasks[k].id, k as u64);
        assert!(m.tasks[k].status == Status::Todo);
    }
}

#[test]
fn add_task_now_dates_through_the_clock() {
    let mut m = fresh_manager();
    m.add_task_now(
        "Dated".to_string(),
        "d".to_string(),
        Priority::High,
        "soon".to_string(),
        None,
    );
    assert_eq!(m.tasks.len(), 1);
    assert_eq!(m.tasks[0].id, 0);
    assert_eq!(m.tasks[0].title, "Dated");
    assert!(m.tasks[0].status == Status::Todo);
}

#[test]
fn update_status_is_idempotent() {
    let mut m = fresh_manager();
    m.add_task(
        "a".to_string(),
        "".to_string(),
        Priority::Low,
        "".to_string(),
        "May 01, 2025".to_string(),
        None,
    );
    m.update_status(0, Status::Done);
    let once = m.tasks_record();
    m.update_status(0, Status::Done);
    let twice = m.tasks_record();
    assert_eq!(once, twice);
    assert!(m.tasks[0].status == Status::Done);
}

#[test]
fn update_status_only_touches_one_task() {
    let mut m = fresh_manager();
    for k in 0..2u64 {
        m.add_task(
            format!("task {}", k),
            "".to_string(),
            Priority::Low,
            "".to_string(),
            "May 01, 2025".to_string(),
            None,
        );
    }
    m.update_status(1, Status::NeedsHelp);
    assert!(m.tasks[0].status == Status::Todo);
    assert!(m.tasks[1].status == Status::NeedsHelp);
    assert_eq!(m.tasks[1].title, "task 1");
}

#[test]
fn failed_verification_leaves_repositories_unchanged() {
    let mut m = fresh_manager();
    let before = m.config_record();
    let repo = Repository {
        owner: "alice".to_string(),
        name: "tools".to_string(),
        display_name: "Tools".to_string(),
    };
    let added = m.add_repository(repo, Some(false));
    assert!(!added);
    assert_eq!(m.config.repositories.len(), 0);
    assert_eq!(m.config_record(), before);
}

#[test]
fn missing_client_leaves_repositories_unchanged() {
    let mut m = fresh_manager();
    let repo = Repository {
        owner: "alice".to_string(),
        name: "tools".to_string(),
        display_name: "Tools".to_string(),
    };
    let added = m.add_repository(repo, None);
    assert!(!added);
    assert_eq!(m.config.repositories.len(), 0);
}

#[test]
fn verified_repository_is_appended() {
    let mut m = fresh_manager();
    let repo = Repository {
        owner: "alice".to_string(),
        name: "tools".to_string(),
        display_name: "Tools".to_string(),
    };
    let added = m.add_repository(repo, Some(true));
    assert!(added);
    assert_eq!(m.config.repositories.len(), 1);
    assert_eq!(m.config.repositories[0].owner, "alice");
    assert_eq!(m.config.repositories[0].name, "tools");
    assert_eq!(m.config.repositories[0].display_name, "Tools");
}

#[test]
fn select_repository_sets_the_current_one() {
    let mut m = fresh_manager();
    for (o, n) in [("a", "one"), ("b", "two")] {
        let repo = Repository {
            owner: o.to_string(),
            name: n.to_string(),
            display_name: n.to_string(),
        };
        assert!(m.add_repository(repo, Some(true)));
    }
    assert!(!m.remote_available());
    m.select_repository(1);
    let current = m.current_repo.as_ref().unwrap();
    assert_eq!(current.owner, "b");
    assert_eq!(current.name, "two");
    assert!(!m.remote_available());
    m.set_remote_connected(true);
    assert!(m.remote_available());
}

#[test]
fn first_time_setup_runs_only_without_repositories() {
    let mut m = fresh_manager();
    assert!(m.needs_first_time_setup());
    m.set_credential("tok-123".to_string());
    assert_eq!(m.config.github_token.as_deref(), Some("tok-123"));
    let repo = Repository {
        owner: "alice".to_string(),
        name: "tools".to_string(),
        display_name: "Tools".to_string(),
    };
    assert!(m.add_repository(repo, Some(true)));
    assert!(!m.needs_first_time_setup());
}

#[test]
fn load_tasks_substitutes_empty_for_missing_or_bad_records() {
    assert_eq!(load_tasks_or_empty(None).len(), 0);
    assert_eq!(load_tasks_or_empty(Some("not a record")).len(), 0);
    assert_eq!(load_tasks_or_empty(Some("[]")).len(), 0);
    let mut m = fresh_manager();
    m.add_task(
        "kept".to_string(),
        "".to_string(),
        Priority::Low,
        "".to_string(),
        "May 01, 2025".to_string(),
        None,
    );
    let text = m.tasks_record();
    let reloaded = load_tasks_or_empty(Some(text.as_str()));
    assert_eq!(reloaded.len(), 1);
    assert_eq!(reloaded[0].title, "kept");
}

#[test]
fn load_config_is_strict_about_existing_records() {
    let fresh = load_config(None).unwrap();
    assert!(fresh.github_token.is_none());
    assert_eq!(fresh.repositories.len(), 0);
    assert!(load_config(Some("garbled")).is_none());
    let mut m = fresh_manager();
    m.set_credential("tok-9".to_string());
    let repo = Repository {
        owner: "o".to_string(),
        name: "n".to_string(),
        display_name: "d".to_string(),
    };
    assert!(m.add_repository(repo, Some(true)));
    let text = m.config_record();
    let back = load_config(Some(text.as_str())).unwrap();
    assert_eq!(back.github_token.as_deref(), Some("tok-9"));
    assert_eq!(back.repositories.len(), 1);
    assert_eq!(back.repositories[0].display_name, "d");
}

#[test]
fn task_labels_pair_id_and_title() {
    let mut m = fresh_manager();
    for k in 0..2u64 {
        m.add_task(
            format!("job {}", k),
            "".to_string(),
            Priority::Low,
            "".to_string(),
            "May 01, 2025".to_string(),
            None,
        );
    }
    let labels = m.task_labels();
    assert_eq!(labels, vec!["0: job 0".to_string(), "1: job 1".to_string()]);
}
