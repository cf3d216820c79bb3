//! The task manager: the in-memory session state and every operation
//! that reads or mutates it, with the startup policies for both persisted
//! records and the laws about repeated operations.

use vstd::prelude::*;
use vstd::string::StringExecFns;
use crate::codec::append_u64;
use crate::codec::dec_digits;
use crate::board::BoardColumns;
use crate::board::board_columns;
use crate::board::column_spec;
use crate::config_record::config_text;
use crate::config_record::config_to_text;
use crate::config_record::config_from_text;
use crate::config_record::parse_config_text;
use crate::model::Config;
use crate::model::Priority;
use crate::model::Repository;
use crate::model::Status;
use crate::model::Task;
use crate::model::TaskView;
use crate::model::repository_label;
use crate::model::repository_label_spec;
use crate::records::parse_tasks_text;
use crate::records::tasks_from_text;
use crate::records::tasks_text;
use crate::records::tasks_to_text;

verus! {

/// Relies on chrono's `Local::now` and its formatter: the current local
/// date as a month-name date label. The result depends on the clock, so
/// nothing is promised of it.
#[verifier::external_body]
fn current_date_label() -> (r: String) {
    chrono::Local::now().format("%B %d, %Y").to_string()
}

/// What one task-creation request carries.
pub struct TaskInput {
    pub title: Seq<char>,
    pub description: Seq<char>,
    pub priority: Priority,
    pub due_date: Seq<char>,
    pub created_at: Seq<char>,
    pub github_issue_number: Option<u64>,
}

/// Gathers the views of the collected values into one request.
pub open spec fn task_input(
    title: Seq<char>,
    description: Seq<char>,
    priority: Priority,
    due_date: Seq<char>,
    created_at: Seq<char>,
    github_issue_number: Option<u64>,
) -> TaskInput {
    TaskInput { title, description, priority, due_date, created_at, github_issue_number }
}

/// The task a request creates when the store holds `id` tasks: the id is
/// that count and the status starts at Todo.
pub open spec fn new_task_view(id: u64, inp: TaskInput) -> TaskView {
    TaskView {
        id,
        title: inp.title,
        description: inp.description,
        priority: inp.priority,
        status: Status::Todo,
        due_date: inp.due_date,
        github_issue_number: inp.github_issue_number,
        created_at: inp.created_at,
    }
}

/// One task-creation step: the new task, with the current length as its
/// id, is appended at the end.
pub open spec fn add_spec(ts: Seq<TaskView>, inp: TaskInput) -> Seq<TaskView> {
    ts.push(new_task_view(ts.len() as u64, inp))
}

/// The store that a sequence of task-creation requests builds from an
/// empty store.
pub open spec fn add_all(inputs: Seq<TaskInput>) -> Seq<TaskView>
    decreases inputs.len(),
{
    if inputs.len() == 0 {
        Seq::empty()
    } else {
        add_spec(add_all(inputs.drop_last()), inputs.last())
    }
}

/// After any number of task creations from an empty store, the store
/// holds exactly that many tasks, and the task added in position `k`
/// carries id `k`: ids are snapshots of the length at creation.
pub proof fn lemma_snapshot_ids(inputs: Seq<TaskInput>)
    requires
        inputs.len() <= u64::MAX,
    ensures
        add_all(inputs).len() == inputs.len(),
        forall|k: int| 0 <= k < inputs.len() ==> (#[trigger] add_all(inputs)[k]).id == k as u64,
        forall|k: int|
            0 <= k < inputs.len() ==> (#[trigger] add_all(inputs)[k]) == new_task_view(
                k as u64,
                inputs[k],
            ),
    decreases inputs.len(),
{
    if inputs.len() == 0 {
    } else {
        lemma_snapshot_ids(inputs.drop_last());
        let prev = add_all(inputs.drop_last());
        assert(add_all(inputs) == prev.push(new_task_view(prev.len() as u64, inputs.last())));
    }
}

/// The task at a position with its status replaced.
pub open spec fn set_status(t: TaskView, st: Status) -> TaskView {
    TaskView { status: st, ..t }
}

/// One status-update step: only the status of the task at `i` changes.
pub open spec fn update_spec(ts: Seq<TaskView>, i: int, st: Status) -> Seq<TaskView> {
    ts.update(i, set_status(ts[i], st))
}

/// Updating a status twice with the same value is the same as updating it
/// once, down to the very text that would be persisted.
pub proof fn lemma_update_status_idempotent(ts: Seq<TaskView>, i: int, st: Status)
    requires
        0 <= i < ts.len(),
    ensures
        update_spec(update_spec(ts, i, st), i, st) == update_spec(ts, i, st),
        tasks_text(update_spec(update_spec(ts, i, st), i, st)) == tasks_text(
            update_spec(ts, i, st),
        ),
{
    let once = update_spec(ts, i, st);
    assert(once[i] == set_status(ts[i], st));
    assert(set_status(set_status(ts[i], st), st) =~= set_status(ts[i], st));
    assert(update_spec(once, i, st) =~= once);
}

/// The selection line for one task: its id and its title.
pub open spec fn task_menu_label_spec(t: TaskView) -> Seq<char> {
    dec_digits(t.id as nat) + ": "@ + t.title
}

/// The in-memory session state: the task store, the configuration, the
/// transient repository selection, and whether a remote client connection
/// is active. The two stores are owned here for the process lifetime.
pub struct TaskManager {
    pub tasks: Vec<Task>,
    pub config: Config,
    pub current_repo: Option<Repository>,
    pub remote_connected: bool,
}

impl TaskManager {
    /// Assembles the session state from what startup loaded; no
    /// repository is selected yet.
    pub fn new(config: Config, remote_connected: bool, tasks: Vec<Task>) -> (m: TaskManager)
        ensures
            m.config == config,
            m.remote_connected == remote_connected,
            m.tasks == tasks,
            m.current_repo is None,
    {
        TaskManager { tasks, config, current_repo: None, remote_connected }
    }

    /// Whether first-time setup must run: no repository is known yet.
    pub fn needs_first_time_setup(&self) -> (r: bool)
        ensures
            r == (self.config.repositories@.len() == 0),
    {
        self.config.repositories.len() == 0
    }

    /// Stores the credential; everything else is untouched.
    pub fn set_credential(&mut self, token: String)
        ensures
            final(self).config.github_token == Some(token),
            final(self).config.repositories == old(self).config.repositories,
            final(self).tasks == old(self).tasks,
            final(self).current_repo == old(self).current_repo,
            final(self).remote_connected == old(self).remote_connected,
    {
        self.config.github_token = Some(token);
    }

    /// Records whether a remote client connection is active.
    pub fn set_remote_connected(&mut self, connected: bool)
        ensures
            final(self).remote_connected == connected,
            final(self).config == old(self).config,
            final(self).tasks == old(self).tasks,
            final(self).current_repo == old(self).current_repo,
    {
        self.remote_connected = connected;
    }

    /// Applies the outcome of adding a repository. `verification` is what
    /// the remote adapter reported: absent when no client exists. The
    /// repository is appended exactly when verification succeeded; on a
    /// failed or impossible verification the whole state, the repository
    /// list included, is left unchanged.
    pub fn add_repository(&mut self, repo: Repository, verification: Option<bool>) -> (added:
        bool)
        ensures
            added == (verification == Some(true)),
            added ==> final(self).config.repositories@ == old(self).config.repositories@.push(
                repo,
            ),
            added ==> final(self).config.github_token == old(self).config.github_token,
            added ==> final(self).tasks == old(self).tasks && final(self).current_repo == old(
                self,
            ).current_repo && final(self).remote_connected == old(self).remote_connected,
            !added ==> *final(self) == *old(self),
    {
        match verification {
            Some(true) => {
                self.config.repositories.push(repo);
                true
            },
            _ => false,
        }
    }

    /// The menu lines for the configured repositories, in their stored
    /// order.
    pub fn repository_labels(&self) -> (r: Vec<String>)
        ensures
            r@.len() == self.config.repositories@.len(),
            forall|k: int|
                0 <= k < r@.len() ==> (#[trigger] r@[k])@ == repository_label_spec(
                    self.config.repositories@[k].deep_view(),
                ),
    {
        let mut r: Vec<String> = Vec::new();
        let mut i: usize = 0;
        while i < self.config.repositories.len()
            invariant
                i <= self.config.repositories@.len(),
                r@.len() == i,
                forall|k: int|
                    0 <= k < i ==> (#[trigger] r@[k])@ == repository_label_spec(
                        self.config.repositories@[k].deep_view(),
                    ),
            decreases self.config.repositories@.len() - i,
        {
            r.push(repository_label(&self.config.repositories[i]));
            i = i + 1;
        }
        r
    }

    /// Selects, by value, the repository at a position of the configured
    /// list.
    pub fn select_repository(&mut self, idx: usize)
        requires
            idx < old(self).config.repositories@.len(),
        ensures
            final(self).current_repo is Some,
            (final(self).current_repo->0).deep_view() == old(self).config.repositories@[
                idx as int].deep_view(),
            final(self).config == old(self).config,
            final(self).tasks == old(self).tasks,
            final(self).remote_connected == old(self).remote_connected,
    {
        let chosen = self.config.repositories[idx].duplicate();
        self.current_repo = Some(chosen);
    }

    /// Whether mirroring a task as a remote issue can be offered: a
    /// remote client and a current repository both exist.
    pub fn remote_available(&self) -> (r: bool)
        ensures
            r == (self.remote_connected && self.current_repo is Some),
    {
        self.remote_connected && match &self.current_repo {
            Some(_) => true,
            None => false,
        }
    }

    /// Appends a task built from the collected inputs: its id is the
    /// current task count, its status starts at Todo, and its issue
    /// number is whatever the remote mirroring attempt yielded — absent
    /// when none was made or it failed. Nothing else changes.
    pub fn add_task(
        &mut self,
        title: String,
        description: String,
        priority: Priority,
        due_date: String,
        created_at: String,
        github_issue_number: Option<u64>,
    )
        requires
            title@.len() > 0,
        ensures
            final(self).tasks.deep_view() == add_spec(
                old(self).tasks.deep_view(),
                task_input(
                    title@,
                    description@,
                    priority,
                    due_date@,
                    created_at@,
                    github_issue_number,
                ),
            ),
            final(self).config == old(self).config,
            final(self).current_repo == old(self).current_repo,
            final(self).remote_connected == old(self).remote_connected,
    {
        let id = self.tasks.len() as u64;
        let t = Task {
            id,
            title,
            description,
            priority,
            status: Status::Todo,
            due_date,
            github_issue_number,
            created_at,
        };
        let ghost tv = t.deep_view();
        self.tasks.push(t);
        proof {
            assert(self.tasks.deep_view() =~= old(self).tasks.deep_view().push(tv));
        }
    }

    /// Appends a task dated through the system clock; everything but the
    /// creation date is pinned as in [`TaskManager::add_task`].
    pub fn add_task_now(
        &mut self,
        title: String,
        description: String,
        priority: Priority,
        due_date: String,
        github_issue_number: Option<u64>,
    )
        requires
            title@.len() > 0,
        ensures
            final(self).tasks.deep_view().len() == old(self).tasks.deep_view().len() + 1,
            final(self).tasks.deep_view().take(old(self).tasks.deep_view().len() as int) == old(
                self,
            ).tasks.deep_view(),
            (final(self).tasks.deep_view().last()).id == old(self).tasks@.len() as u64,
            (final(self).tasks.deep_view().last()).title == title@,
            (final(self).tasks.deep_view().last()).description == description@,
            (final(self).tasks.deep_view().last()).priority == priority,
            (final(self).tasks.deep_view().last()).status == Status::Todo,
            (final(self).tasks.deep_view().last()).due_date == due_date@,
            (final(self).tasks.deep_view().last()).github_issue_number == github_issue_number,
            final(self).config == old(self).config,
            final(self).current_repo == old(self).current_repo,
            final(self).remote_connected == old(self).remote_connected,
    {
        let created_at = current_date_label();
        let ghost pre = self.tasks.deep_view();
        self.add_task(title, description, priority, due_date, created_at, github_issue_number);
        proof {
            assert(self.tasks.deep_view().take(pre.len() as int) =~= pre);
        }
    }

    /// Replaces the status of the task at a position; only that one field
    /// of that one task changes, and a second identical update would
    /// change nothing.
    pub fn update_status(&mut self, idx: usize, st: Status)
        requires
            idx < old(self).tasks@.len(),
        ensures
            final(self).tasks.deep_view() == update_spec(
                old(self).tasks.deep_view(),
                idx as int,
                st,
            ),
            final(self).config == old(self).config,
            final(self).current_repo == old(self).current_repo,
            final(self).remote_connected == old(self).remote_connected,
    {
        let mut t = self.tasks.remove(idx);
        t.status = st;
        self.tasks.insert(idx, t);
        proof {
            assert(self.tasks.deep_view() =~= update_spec(
                old(self).tasks.deep_view(),
                idx as int,
                st,
            ));
        }
    }

    /// The selection lines for the stored tasks, in their stored order.
    pub fn task_labels(&self) -> (r: Vec<String>)
        ensures
            r@.len() == self.tasks@.len(),
            forall|k: int|
                0 <= k < r@.len() ==> (#[trigger] r@[k])@ == task_menu_label_spec(
                    self.tasks.deep_view()[k],
                ),
    {
        let mut r: Vec<String> = Vec::new();
        let mut i: usize = 0;
        while i < self.tasks.len()
            invariant
                i <= self.tasks@.len(),
                r@.len() == i,
                forall|k: int|
                    0 <= k < i ==> (#[trigger] r@[k])@ == task_menu_label_spec(
                        self.tasks.deep_view()[k],
                    ),
            decreases self.tasks@.len() - i,
        {
            let t = &self.tasks[i];
            let mut line = String::new();
            append_u64(&mut line, t.id);
            line.append(": ");
            line.append(t.title.as_str());
            proof {
                assert(line@ =~= task_menu_label_spec(self.tasks.deep_view()[i as int]));
            }
            r.push(line);
            i = i + 1;
        }
        r
    }

    /// The number of stored tasks.
    pub fn task_count(&self) -> (n: usize)
        ensures
            n == self.tasks@.len(),
    {
        self.tasks.len()
    }

    /// The board projection of the current task list; the list itself is
    /// untouched.
    pub fn board(&self) -> (r: BoardColumns)
        ensures
            r.todo.deep_view() == column_spec(self.tasks.deep_view(), Status::Todo),
            r.in_progress.deep_view() == column_spec(self.tasks.deep_view(), Status::InProgress),
            r.needs_help.deep_view() == column_spec(self.tasks.deep_view(), Status::NeedsHelp),
            r.done.deep_view() == column_spec(self.tasks.deep_view(), Status::Done),
    {
        board_columns(&self.tasks)
    }

    /// The text to persist for the task store.
    pub fn tasks_record(&self) -> (r: String)
        ensures
            r@ == tasks_text(self.tasks.deep_view()),
    {
        tasks_to_text(&self.tasks)
    }

    /// The text to persist for the configuration.
    pub fn config_record(&self) -> (r: String)
        ensures
            r@ == config_text(self.config.deep_view()),
    {
        config_to_text(&self.config)
    }
}

/// A fresh configuration: no credential and no repositories.
pub fn default_config() -> (c: Config)
    ensures
        c.github_token is None,
        c.repositories@.len() == 0,
{
    Config { github_token: None, repositories: Vec::new() }
}

/// Startup policy for the configuration record: an absent record is
/// replaced by the default, an existing record must parse — a record that
/// does not yields nothing, and the caller treats that as fatal.
pub fn load_config(text: Option<&str>) -> (r: Option<Config>)
    ensures
        match text {
            None => r is Some && (r->0).github_token is None && (r->0).repositories@.len() == 0,
            Some(s) => match r {
                Some(c) => parse_config_text(s@) == Some(c.deep_view()),
                None => parse_config_text(s@) is None,
            },
        },
{
    match text {
        None => Some(default_config()),
        Some(s) => config_from_text(s),
    }
}

/// Startup policy for the task record: an absent record yields an empty
/// store, and so does a record that does not parse — availability is
/// preferred over the unreadable data. This is deliberately asymmetric
/// with [`load_config`], which refuses to run on an unreadable record:
/// the two records are trusted differently, losing tasks is tolerated
/// where losing the credential and repository list is not.
pub fn load_tasks_or_empty(text: Option<&str>) -> (r: Vec<Task>)
    ensures
        match text {
            None => r.deep_view() == Seq::<TaskView>::empty(),
            Some(s) => match parse_tasks_text(s@) {
                Some(ts) => r.deep_view() == ts,
                None => r.deep_view() == Seq::<TaskView>::empty(),
            },
        },
{
    match text {
        None => {
            let r: Vec<Task> = Vec::new();
            proof {
                assert(r.deep_view() =~= Seq::<TaskView>::empty());
            }
            r
        },
        Some(s) => match tasks_from_text(s) {
            Some(v) => v,
            None => {
                let r: Vec<Task> = Vec::new();
                proof {
                    assert(r.deep_view() =~= Seq::<TaskView>::empty());
                }
                r
            },
        },
    }
}

} // verus!
