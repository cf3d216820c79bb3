use taskflow::config_record::config_from_text;
use taskflow::config_record::config_to_text;
use taskflow::model::Config;
use taskflow::model::Priority;
use taskflow::model::Repository;
use taskflow::model::Status;
use taskflow::model::Task;
use taskflow::records::tasks_from_text;
use taskflow::records::tasks_to_text;

fn sample_task(id: u64, title: &str, status: Status) -> Task {
    Task {
        id,
        title: title.to_string(),
        description: "plain".to_string(),
        priority: Priority::Medium,
        status,
        due_date: "next week".to_string(),
        github_issue_number: None,
        created_at: "May 01, 2025".to_string(),
    }
}

fn assert_same_task(a: &Task, b: &Task) {
    assert_eq!(a.id, b.id);
    assert_eq!(a.title, b.title);
    assert_eq!(a.description, b.description);
    assert!(a.priority == b.priority);
    assert!(a.status == b.status);
    assert_eq!(a.due_date, b.due_date);
    assert_eq!(a.github_issue_number, b.github_issue_number);
    assert_eq!(a.created_at, b.created_at);
}

#[test]
fn empty_store_writes_the_empty_list() {
    let tasks: Vec<Task> = Vec::new();
    assert_eq!(tasks_to_text(&tasks), "[]");
    assert_eq!(tasks_from_text("[]").unwrap().len(), 0);
}

#[test]
fn one_task_writes_the_exact_record() {
    let tasks = vec![Task {
        id: 0,
        title: "Write spec".to_string(),
        description: "".to_string(),
        priority: Priority::Medium,
        status: Status::Todo,
        due_date: "tomorrow".to_string(),
        github_issue_number: None,
        created_at: "May 01, 2025".to_string(),
    }];
    let expected = "[\n  {\"id\": 0, \"title\": \"Write spec\", \"description\": \"\", \
        \"priority\": \"Medium\", \"status\": \"Todo\", \"due_date\": \"tomorrow\", \
        \"github_issue_number\": null, \"created_at\": \"May 01, 2025\"}\n]";
    assert_eq!(tasks_to_text(&tasks), expected);
}

#[test]
fn task_record_round_trips_byte_for_byte() {
    let mut tasks = vec![
        sample_task(0, "plain title", Status::Todo),
        sample_task(1, "quotes \" and \\ backslash", Status::Done),
        sample_task(2, "line\nbreak\tand tab", Status::InProgress),
    ];
    tasks[1].github_issue_number = Some(12345);
    tasks[2].description = "ends with quote\"".to_string();
    let first = tasks_to_text(&tasks);
    let reloaded = tasks_from_text(first.as_str()).unwrap();
    let second = tasks_to_text(&reloaded);
    assert_eq!(first, second);
    assert_eq!(reloaded.len(), tasks.len());
    for (a, b) in tasks.iter().zip(reloaded.iter()) {
        assert_same_task(a, b);
    }
}

#[test]
fn large_issue_numbers_survive_the_trip() {
    let mut t = sample_task(7, "big", Status::NeedsHelp);
    t.github_issue_number = Some(u64::MAX);
    let tasks = vec![t];
    let text = tasks_to_text(&tasks);
    let back = tasks_from_text(text.as_str()).unwrap();
    assert_eq!(back[0].github_issue_number, Some(u64::MAX));
    assert_eq!(back[0].id, 7);
}

#[test]
fn damaged_task_records_do_not_parse() {
    assert!(tasks_from_text("").is_none());
    assert!(tasks_from_text("[").is_none());
    assert!(tasks_from_text("{}").is_none());
    assert!(tasks_from_text("[\n  {\"id\": x}\n]").is_none());
    assert!(tasks_from_text("[\n  {\"id\": 0, \"title\": \"unterminated}\n]").is_none());
    // A correct record with trailing bytes is not a record.
    assert!(tasks_from_text("[][]").is_none());
}

#[test]
fn default_config_writes_the_exact_record() {
    let c = Config { github_token: None, repositories: Vec::new() };
    let expected = "{\n  \"github_token\": null,\n  \"repositories\": []\n}";
    assert_eq!(config_to_text(&c), expected);
    let back = config_from_text(expected).unwrap();
    assert!(back.github_token.is_none());
    assert_eq!(back.repositories.len(), 0);
}

#[test]
fn config_record_round_trips_byte_for_byte() {
    let c = Config {
        github_token: Some("token \"quoted\"\nwith breaks".to_string()),
        repositories: vec![
            Repository {
                owner: "alice".to_string(),
                name: "tools".to_string(),
                display_name: "Tool Box".to_string(),
            },
            Repository {
                owner: "bob".to_string(),
                name: "notes".to_string(),
                display_name: "notes".to_string(),
            },
        ],
    };
    let first = config_to_text(&c);
    let back = config_from_text(first.as_str()).unwrap();
    let second = config_to_text(&back);
    assert_eq!(first, second);
    assert_eq!(back.github_token.as_deref(), c.github_token.as_deref());
    assert_eq!(back.repositories.len(), 2);
    assert_eq!(back.repositories[0].display_name, "Tool Box");
    assert_eq!(back.repositories[1].owner, "bob");
}

#[test]
fn damaged_config_records_do_not_parse() {
    assert!(config_from_text("").is_none());
    assert!(config_from_text("{}").is_none());
    assert!(config_from_text("{\n  \"github_token\": null\n}").is_none());
}

#[test]
fn status_and_priority_names_round_trip_in_records() {
    let tasks = vec![
        {
            let mut t = sample_task(0, "a", Status::Todo);
            t.priority = Priority::Low;
            t
        },
        {
            let mut t = sample_task(1, "b", Status::InProgress);
            t.priority = Priority::Medium;
            t
        },
        {
            let mut t = sample_task(2, "c", Status::NeedsHelp);
            t.priority = Priority::High;
            t
        },
        sample_task(3, "d", Status::Done),
    ];
    let text = tasks_to_text(&tasks);
    assert!(text.contains("\"priority\": \"Low\""));
    assert!(text.contains("\"priority\": \"High\""));
    assert!(text.contains("\"status\": \"NeedsHelp\""));
    let back = tasks_from_text(text.as_str()).unwrap();
    assert!(back[0].priority == Priority::Low);
    assert!(back[1].status == Status::InProgress);
    assert!(back[2].status == Status::NeedsHelp);
    assert!(back[3].status == Status::Done);
}
