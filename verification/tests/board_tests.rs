use taskflow::board::board_columns;
use taskflow::model::Priority;
use taskflow::model::Repository;
use taskflow::model::Status;
use taskflow::model::Task;
use taskflow::model::project_url;
use taskflow::model::repository_label;
use taskflow::model::setup_issue_body;
use taskflow::model::setup_issue_title;

fn task_with_status(id: u64, title: &str, status: Status) -> Task {
    Task {
        id,
        title: title.to_string(),
        description: "".to_string(),
        priority: Priority::Low,
        status,
        due_date: "".to_string(),
        github_issue_number: None,
        created_at: "May 01, 2025".to_string(),
    }
}

#[test]
fn board_groups_three_tasks_into_the_fixed_columns() {
    let tasks = vec![
        task_with_status(0, "task0", Status::Todo),
        task_with_status(1, "task1", Status::Done),
        task_with_status(2, "task2", Status::InProgress),
    ];
    let board = board_columns(&tasks);
    assert_eq!(board.todo.len(), 1);
    assert_eq!(board.todo[0].title, "task0");
    assert_eq!(board.in_progress.len(), 1);
    assert_eq!(board.in_progress[0].title, "task2");
    assert_eq!(board.needs_help.len(), 0);
    assert_eq!(board.done.len(), 1);
    assert_eq!(board.done[0].title, "task1");
}

#[test]
fn board_columns_partition_the_list() {
    let statuses = [
        Status::Todo,
        Status::Done,
        Status::InProgress,
        Status::Todo,
        Status::NeedsHelp,
        Status::Done,
        Status::Todo,
    ];
    let tasks: Vec<Task> = statuses
        .iter()
        .enumerate()
        .map(|(k, st)| task_with_status(k as u64, &format!("t{}", k), *st))
        .collect();
    let board = board_columns(&tasks);
    let total = board.todo.len() + board.in_progress.len() + board.needs_help.len()
        + board.done.len();
    assert_eq!(total, tasks.len());
    assert_eq!(board.todo.len(), 3);
    assert_eq!(board.done.len(), 2);
    // Relative insertion order is kept inside each column.
    assert_eq!(board.todo[0].id, 0);
    assert_eq!(board.todo[1].id, 3);
    assert_eq!(board.todo[2].id, 6);
    assert_eq!(board.done[0].id, 1);
    assert_eq!(board.done[1].id, 5);
    for t in &board.todo {
        assert!(t.status == Status::Todo);
    }
    for t in &board.needs_help {
        assert!(t.status == Status::NeedsHelp);
    }
}

#[test]
fn board_does_not_touch_the_source_list() {
    let tasks = vec![
        task_with_status(0, "keep", Status::Todo),
        task_with_status(1, "also keep", Status::Done),
    ];
    let _ = board_columns(&tasks);
    assert_eq!(tasks.len(), 2);
    assert_eq!(tasks[0].title, "keep");
    assert!(tasks[1].status == Status::Done);
}

#[test]
fn priority_and_status_menu_indexing() {
    assert!(Priority::from_index(0) == Priority::Low);
    assert!(Priority::from_index(1) == Priority::Medium);
    assert!(Priority::from_index(2) == Priority::High);
    assert!(Priority::from_index(9) == Priority::High);
    assert!(Status::from_index(0) == Status::Todo);
    assert!(Status::from_index(1) == Status::InProgress);
    assert!(Status::from_index(2) == Status::NeedsHelp);
    assert!(Status::from_index(3) == Status::Done);
    assert!(Status::from_index(9) == Status::Done);
    assert_eq!(Priority::High.label(), "High");
    assert_eq!(Status::NeedsHelp.label(), "NeedsHelp");
}

#[test]
fn display_strings_follow_the_fixed_shapes() {
    let repo = Repository {
        owner: "alice".to_string(),
        name: "tools".to_string(),
        display_name: "Tool Box".to_string(),
    };
    assert_eq!(repository_label(&repo), "Tool Box (alice/tools)");
    assert_eq!(project_url(&repo), "https://github.com/alice/tools/projects");
    assert_eq!(setup_issue_title("My Board"), "Setup: My Board");
    assert_eq!(
        setup_issue_body("Tracks everything"),
        "Project Board Setup\n\nTracks everything"
    );
}
