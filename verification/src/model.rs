//! Core data model: priorities, statuses, repositories, the configuration
//! record, and tasks, together with their mathematical views and the small
//! display helpers the interface needs.

use vstd::prelude::*;
use vstd::string::StringExecFns;

verus! {

/// Urgency of a task, chosen once at creation.
#[derive(Clone, Copy, PartialEq, Eq, Structural, Debug)]
pub enum Priority {
    Low,
    Medium,
    High,
}

/// Workflow state of a task; any status is reachable from any other.
#[derive(Clone, Copy, PartialEq, Eq, Structural, Debug)]
pub enum Status {
    Todo,
    InProgress,
    NeedsHelp,
    Done,
}

/// A remote project that tasks may be mirrored into.
pub struct Repository {
    pub owner: String,
    pub name: String,
    pub display_name: String,
}

/// Mathematical view of a [`Repository`].
#[verifier::ext_equal]
pub struct RepositoryView {
    pub owner: Seq<char>,
    pub name: Seq<char>,
    pub display_name: Seq<char>,
}

impl DeepView for Repository {
    type V = RepositoryView;

    open spec fn deep_view(&self) -> RepositoryView {
        RepositoryView {
            owner: self.owner@,
            name: self.name@,
            display_name: self.display_name@,
        }
    }
}

/// Persisted process-wide settings: an optional remote credential and the
/// ordered list of known repositories.
pub struct Config {
    pub github_token: Option<String>,
    pub repositories: Vec<Repository>,
}

/// Mathematical view of a [`Config`].
#[verifier::ext_equal]
pub struct ConfigView {
    pub github_token: Option<Seq<char>>,
    pub repositories: Seq<RepositoryView>,
}

impl DeepView for Config {
    type V = ConfigView;

    open spec fn deep_view(&self) -> ConfigView {
        ConfigView {
            github_token: self.github_token.deep_view(),
            repositories: self.repositories.deep_view(),
        }
    }
}

/// A tracked task. The `id` is a snapshot of the list length at creation
/// time, not a durable key; `github_issue_number` is set only when mirroring
/// the task as a remote issue succeeded.
pub struct Task {
    pub id: u64,
    pub title: String,
    pub description: String,
    pub priority: Priority,
    pub status: Status,
    pub due_date: String,
    pub github_issue_number: Option<u64>,
    pub created_at: String,
}

/// Mathematical view of a [`Task`].
#[verifier::ext_equal]
pub struct TaskView {
    pub id: u64,
    pub title: Seq<char>,
    pub description: Seq<char>,
    pub priority: Priority,
    pub status: Status,
    pub due_date: Seq<char>,
    pub github_issue_number: Option<u64>,
    pub created_at: Seq<char>,
}

impl DeepView for Task {
    type V = TaskView;

    open spec fn deep_view(&self) -> TaskView {
        TaskView {
            id: self.id,
            title: self.title@,
            description: self.description@,
            priority: self.priority,
            status: self.status,
            due_date: self.due_date@,
            github_issue_number: self.github_issue_number,
            created_at: self.created_at@,
        }
    }
}

/// The serialized name of a priority.
pub open spec fn priority_label(p: Priority) -> Seq<char> {
    match p {
        Priority::Low => "Low"@,
        Priority::Medium => "Medium"@,
        Priority::High => "High"@,
    }
}

/// The serialized name of a status.
pub open spec fn status_label(s: Status) -> Seq<char> {
    match s {
        Status::Todo => "Todo"@,
        Status::InProgress => "InProgress"@,
        Status::NeedsHelp => "NeedsHelp"@,
        Status::Done => "Done"@,
    }
}

/// The priority picked by a zero-based menu index; anything past the last
/// entry counts as the last entry.
pub open spec fn priority_of_index(i: int) -> Priority {
    if i == 0 {
        Priority::Low
    } else if i == 1 {
        Priority::Medium
    } else {
        Priority::High
    }
}

/// The status picked by a zero-based menu index; anything past the last
/// entry counts as the last entry.
pub open spec fn status_of_index(i: int) -> Status {
    if i == 0 {
        Status::Todo
    } else if i == 1 {
        Status::InProgress
    } else if i == 2 {
        Status::NeedsHelp
    } else {
        Status::Done
    }
}

impl Priority {
    /// The serialized name of this priority.
    pub fn label(&self) -> (r: &'static str)
        ensures
            r@ == priority_label(*self),
    {
        match self {
            Priority::Low => "Low",
            Priority::Medium => "Medium",
            Priority::High => "High",
        }
    }

    /// The priority picked by a zero-based menu index.
    pub fn from_index(i: usize) -> (r: Priority)
        ensures
            r == priority_of_index(i as int),
    {
        if i == 0 {
            Priority::Low
        } else if i == 1 {
            Priority::Medium
        } else {
            Priority::High
        }
    }
}

impl Status {
    /// The serialized name of this status.
    pub fn label(&self) -> (r: &'static str)
        ensures
            r@ == status_label(*self),
    {
        match self {
            Status::Todo => "Todo",
            Status::InProgress => "InProgress",
            Status::NeedsHelp => "NeedsHelp",
            Status::Done => "Done",
        }
    }

    /// The status picked by a zero-based menu index.
    pub fn from_index(i: usize) -> (r: Status)
        ensures
            r == status_of_index(i as int),
    {
        if i == 0 {
            Status::Todo
        } else if i == 1 {
            Status::InProgress
        } else if i == 2 {
            Status::NeedsHelp
        } else {
            Status::Done
        }
    }
}

impl Repository {
    /// An exact copy, field by field.
    pub fn duplicate(&self) -> (r: Repository)
        ensures
            r.deep_view() == self.deep_view(),
    {
        Repository {
            owner: self.owner.clone(),
            name: self.name.clone(),
            display_name: self.display_name.clone(),
        }
    }
}

impl Task {
    /// An exact copy, field by field.
    pub fn duplicate(&self) -> (r: Task)
        ensures
            r.deep_view() == self.deep_view(),
    {
        Task {
            id: self.id,
            title: self.title.clone(),
            description: self.description.clone(),
            priority: self.priority,
            status: self.status,
            due_date: self.due_date.clone(),
            github_issue_number: self.github_issue_number,
            created_at: self.created_at.clone(),
        }
    }
}

/// The menu line for one repository: `display_name (owner/name)`.
pub open spec fn repository_label_spec(r: RepositoryView) -> Seq<char> {
    r.display_name + " ("@ + r.owner + "/"@ + r.name + ")"@
}

/// Builds the menu line for one repository.
pub fn repository_label(r: &Repository) -> (s: String)
    ensures
        s@ == repository_label_spec(r.deep_view()),
{
    let mut s = String::new();
    s.append(r.display_name.as_str());
    s.append(" (");
    s.append(r.owner.as_str());
    s.append("/");
    s.append(r.name.as_str());
    s.append(")");
    proof {
        assert(s@ =~= repository_label_spec(r.deep_view()));
    }
    s
}

/// The address of a repository's project boards page.
pub open spec fn project_url_spec(r: RepositoryView) -> Seq<char> {
    "https://github.com/"@ + r.owner + "/"@ + r.name + "/projects"@
}

/// Builds the address of a repository's project boards page.
pub fn project_url(r: &Repository) -> (s: String)
    ensures
        s@ == project_url_spec(r.deep_view()),
{
    let mut s = String::new();
    s.append("https://github.com/");
    s.append(r.owner.as_str());
    s.append("/");
    s.append(r.name.as_str());
    s.append("/projects");
    proof {
        assert(s@ =~= project_url_spec(r.deep_view()));
    }
    s
}

/// The title of the advisory remote tracking issue for a board.
pub open spec fn setup_issue_title_spec(name: Seq<char>) -> Seq<char> {
    "Setup: "@ + name
}

/// Builds the title of the advisory remote tracking issue for a board.
pub fn setup_issue_title(name: &str) -> (s: String)
    ensures
        s@ == setup_issue_title_spec(name@),
{
    let mut s = String::new();
    s.append("Setup: ");
    s.append(name);
    proof {
        assert(s@ =~= setup_issue_title_spec(name@));
    }
    s
}

/// The body of the advisory remote tracking issue for a board.
pub open spec fn setup_issue_body_spec(description: Seq<char>) -> Seq<char> {
    "Project Board Setup\n\n"@ + description
}

/// Builds the body of the advisory remote tracking issue for a board.
pub fn setup_issue_body(description: &str) -> (s: String)
    ensures
        s@ == setup_issue_body_spec(description@),
{
    let mut s = String::new();
    s.append("Project Board Setup\n\n");
    s.append(description);
    proof {
        assert(s@ =~= setup_issue_body_spec(description@));
    }
    s
}

} // verus!
