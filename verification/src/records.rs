//! The persisted task record: a pretty-printed, self-describing text form
//! of the task list, with a verified writer and reader and a proof that
//! reading back what was written recovers the list exactly.

use vstd::prelude::*;
use vstd::seq_lib::lemma_concat_associative;
use vstd::string::StringExecFns;
use crate::codec::append_escaped;
use crate::codec::append_u64;
use crate::codec::dec_digits;
use crate::codec::escape_seq;
use crate::codec::is_digit;
use crate::codec::lemma_dec_digits_digits;
use crate::codec::lemma_parse_escaped;
use crate::codec::lemma_parse_lit_exact;
use crate::codec::lemma_parse_u64_round;
use crate::codec::p_lit;
use crate::codec::p_string;
use crate::codec::p_u64;
use crate::codec::parse_lit;
use crate::codec::parse_string_body;
use crate::codec::parse_u64;
use crate::codec::str_chars;
use crate::model::Priority;
use crate::model::Status;
use crate::model::Task;
use crate::model::TaskView;
use crate::model::priority_label;
use crate::model::status_label;

verus! {

/// Opening of a task object, up to its id value.
pub open spec fn lab_id() -> Seq<char> {
    "{\"id\": "@
}

/// Label before the title value.
pub open spec fn lab_title() -> Seq<char> {
    ", \"title\": \""@
}

/// Label before the description value.
pub open spec fn lab_description() -> Seq<char> {
    ", \"description\": \""@
}

/// Label before the priority value.
pub open spec fn lab_priority() -> Seq<char> {
    ", \"priority\": \""@
}

/// Label before the status value.
pub open spec fn lab_status() -> Seq<char> {
    ", \"status\": \""@
}

/// Label before the due date value.
pub open spec fn lab_due_date() -> Seq<char> {
    ", \"due_date\": \""@
}

/// Label before the issue number value.
pub open spec fn lab_issue() -> Seq<char> {
    ", \"github_issue_number\": "@
}

/// Label before the creation date value.
pub open spec fn lab_created_at() -> Seq<char> {
    ", \"created_at\": \""@
}

/// A closing quote.
pub open spec fn quote() -> Seq<char> {
    "\""@
}

/// A closing brace.
pub open spec fn rbrace() -> Seq<char> {
    "}"@
}

/// The written form of an absent value.
pub open spec fn null_lit() -> Seq<char> {
    "null"@
}

/// Opening of a non-empty list of task objects.
pub open spec fn arr_open() -> Seq<char> {
    "[\n  "@
}

/// Closing of a non-empty list of task objects.
pub open spec fn arr_close() -> Seq<char> {
    "\n]"@
}

/// Separator between task objects.
pub open spec fn item_sep() -> Seq<char> {
    ",\n  "@
}

/// The written form of an empty list.
pub open spec fn empty_list() -> Seq<char> {
    "[]"@
}

/// A quoted field: label, escaped value, closing quote.
pub open spec fn qfield(lab: Seq<char>, v: Seq<char>) -> Seq<char> {
    lab + escape_seq(v) + quote()
}

/// The written form of an optional issue number.
pub open spec fn issue_text(o: Option<u64>) -> Seq<char> {
    match o {
        None => null_lit(),
        Some(n) => dec_digits(n as nat),
    }
}

/// The written form of one task.
pub open spec fn task_obj(t: TaskView) -> Seq<char> {
    lab_id() + dec_digits(t.id as nat) + qfield(lab_title(), t.title) + qfield(
        lab_description(),
        t.description,
    ) + qfield(lab_priority(), priority_label(t.priority)) + qfield(
        lab_status(),
        status_label(t.status),
    ) + qfield(lab_due_date(), t.due_date) + lab_issue() + issue_text(t.github_issue_number)
        + qfield(lab_created_at(), t.created_at) + rbrace()
}

/// The written form of a non-empty task list, without brackets.
pub open spec fn tasks_items(ts: Seq<TaskView>) -> Seq<char>
    decreases ts.len(),
{
    if ts.len() == 0 {
        Seq::empty()
    } else if ts.len() == 1 {
        task_obj(ts[0])
    } else {
        task_obj(ts[0]) + item_sep() + tasks_items(ts.drop_first())
    }
}

/// The full written form of a task list.
pub open spec fn tasks_text(ts: Seq<TaskView>) -> Seq<char> {
    if ts.len() == 0 {
        empty_list()
    } else {
        arr_open() + tasks_items(ts) + arr_close()
    }
}

/// The priority a written name stands for, if any.
pub open spec fn priority_of_label(s: Seq<char>) -> Option<Priority> {
    if s == "Low"@ {
        Some(Priority::Low)
    } else if s == "Medium"@ {
        Some(Priority::Medium)
    } else if s == "High"@ {
        Some(Priority::High)
    } else {
        None
    }
}

/// The status a written name stands for, if any.
pub open spec fn status_of_label(s: Seq<char>) -> Option<Status> {
    if s == "Todo"@ {
        Some(Status::Todo)
    } else if s == "InProgress"@ {
        Some(Status::InProgress)
    } else if s == "NeedsHelp"@ {
        Some(Status::NeedsHelp)
    } else if s == "Done"@ {
        Some(Status::Done)
    } else {
        None
    }
}

/// Consumes a quoted field: its label, then the escaped value through the
/// closing quote.
pub open spec fn parse_qfield(s: Seq<char>, lab: Seq<char>) -> Option<(Seq<char>, Seq<char>)> {
    match parse_lit(s, lab) {
        None => None,
        Some(r) => parse_string_body(r),
    }
}

/// Consumes an optional issue number: `null` or a numeral.
pub open spec fn parse_issue(s: Seq<char>) -> Option<(Option<u64>, Seq<char>)> {
    match parse_lit(s, null_lit()) {
        Some(r) => Some((None, r)),
        None => match parse_u64(s) {
            None => None,
            Some(p) => Some((Some(p.0), p.1)),
        },
    }
}

/// Consumes one written task.
pub open spec fn parse_task_obj(s: Seq<char>) -> Option<(TaskView, Seq<char>)> {
    match parse_lit(s, lab_id()) {
        None => None,
        Some(s1) => match parse_u64(s1) {
            None => None,
            Some((id, s2)) => match parse_qfield(s2, lab_title()) {
                None => None,
                Some((title, s3)) => match parse_qfield(s3, lab_description()) {
                    None => None,
                    Some((description, s4)) => match parse_qfield(s4, lab_priority()) {
                        None => None,
                        Some((pl, s5)) => match priority_of_label(pl) {
                            None => None,
                            Some(priority) => match parse_qfield(s5, lab_status()) {
                                None => None,
                                Some((sl, s6)) => match status_of_label(sl) {
                                    None => None,
                                    Some(status) => match parse_qfield(s6, lab_due_date()) {
                                        None => None,
                                        Some((due_date, s7)) => match parse_lit(s7, lab_issue()) {
                                            None => None,
                                            Some(s8) => match parse_issue(s8) {
                                                None => None,
                                                Some((issue, s9)) => match parse_qfield(
                                                    s9,
                                                    lab_created_at(),
                                                ) {
                                                    None => None,
                                                    Some((created_at, s10)) => match parse_lit(
                                                        s10,
                                                        rbrace(),
                                                    ) {
                                                        None => None,
                                                        Some(s11) => Some(
                                                            (
                                                                TaskView {
                                                                    id,
                                                                    title,
                                                                    description,
                                                                    priority,
                                                                    status,
                                                                    due_date,
                                                                    github_issue_number: issue,
                                                                    created_at,
                                                                },
                                                                s11,
                                                            ),
                                                        ),
                                                    },
                                                },
                                            },
                                        },
                                    },
                                },
                            },
                        },
                    },
                },
            },
        },
    }
}

/// Consumes one or more written tasks separated by the item separator.
pub open spec fn parse_tasks_items(s: Seq<char>) -> Option<(Seq<TaskView>, Seq<char>)>
    decreases s.len(),
{
    match parse_task_obj(s) {
        None => None,
        Some((t, r)) => match parse_lit(r, item_sep()) {
            Some(r2) => if r2.len() < s.len() {
                match parse_tasks_items(r2) {
                    None => None,
                    Some((ts, r3)) => Some((seq![t] + ts, r3)),
                }
            } else {
                None
            },
            None => Some((seq![t], r)),
        },
    }
}

/// Reads a whole written task list.
pub open spec fn parse_tasks_text(s: Seq<char>) -> Option<Seq<TaskView>> {
    if s == empty_list() {
        Some(Seq::empty())
    } else {
        match parse_lit(s, arr_open()) {
            None => None,
            Some(r) => match parse_tasks_items(r) {
                None => None,
                Some((ts, r2)) => if r2 == arr_close() {
                    Some(ts)
                } else {
                    None
                },
            },
        }
    }
}

/// A quoted field reads back as the value it was written from.
pub proof fn lemma_parse_qfield(lab: Seq<char>, v: Seq<char>, rest: Seq<char>)
    ensures
        parse_qfield(qfield(lab, v) + rest, lab) == Some((v, rest)),
{
    let inner = escape_seq(v) + seq!['"'] + rest;
    reveal_strlit("\"");
    assert(quote() =~= seq!['"']);
    assert(qfield(lab, v) + rest =~= lab + inner);
    lemma_parse_lit_exact(lab, inner);
    lemma_parse_escaped(v, rest);
}

/// A written priority name reads back as the priority it was written from.
pub proof fn lemma_priority_label_round(p: Priority)
    ensures
        priority_of_label(priority_label(p)) == Some(p),
{
    reveal_strlit("Low");
    reveal_strlit("Medium");
    reveal_strlit("High");
    assert("Low"@.len() == 3);
    assert("Medium"@.len() == 6);
    assert("High"@.len() == 4);
    assert("Medium"@ != "Low"@);
    assert("High"@ != "Low"@);
    assert("High"@ != "Medium"@);
    match p {
        Priority::Low => {
            assert(priority_of_label("Low"@) == Some(Priority::Low));
        },
        Priority::Medium => {
            assert(priority_of_label("Medium"@) == Some(Priority::Medium));
        },
        Priority::High => {
            assert(priority_of_label("High"@) == Some(Priority::High));
        },
    }
}

/// A written status name reads back as the status it was written from.
pub proof fn lemma_status_label_round(s: Status)
    ensures
        status_of_label(status_label(s)) == Some(s),
{
    reveal_strlit("Todo");
    reveal_strlit("InProgress");
    reveal_strlit("NeedsHelp");
    reveal_strlit("Done");
    assert("Todo"@.len() == 4);
    assert("InProgress"@.len() == 10);
    assert("NeedsHelp"@.len() == 9);
    assert("Done"@.len() == 4);
    assert("Todo"@[0] == 'T');
    assert("Done"@[0] == 'D');
    assert("InProgress"@ != "Todo"@);
    assert("NeedsHelp"@ != "Todo"@);
    assert("NeedsHelp"@ != "InProgress"@);
    assert("Done"@ != "Todo"@);
    assert("Done"@ != "InProgress"@);
    assert("Done"@ != "NeedsHelp"@);
    match s {
        Status::Todo => {
            assert(status_of_label("Todo"@) == Some(Status::Todo));
        },
        Status::InProgress => {
            assert(status_of_label("InProgress"@) == Some(Status::InProgress));
        },
        Status::NeedsHelp => {
            assert(status_of_label("NeedsHelp"@) == Some(Status::NeedsHelp));
        },
        Status::Done => {
            assert(status_of_label("Done"@) == Some(Status::Done));
        },
    }
}

/// A written issue number reads back as the value it was written from,
/// provided what follows starts with a non-digit other than `n`.
pub proof fn lemma_parse_issue_round(o: Option<u64>, rest: Seq<char>)
    requires
        rest.len() > 0,
        !is_digit(rest[0]),
        rest[0] != 'n',
    ensures
        parse_issue(issue_text(o) + rest) == Some((o, rest)),
{
    reveal_strlit("null");
    let s = issue_text(o) + rest;
    match o {
        None => {
            lemma_parse_lit_exact(null_lit(), rest);
        },
        Some(n) => {
            let d = dec_digits(n as nat);
            lemma_dec_digits_digits(n as nat);
            assert(s[0] == d[0]);
            assert(is_digit(s[0]));
            if null_lit().len() <= s.len() {
                assert(s.take(null_lit().len() as int)[0] == s[0]);
                assert('n' as u32 == 110);
                assert(!is_digit('n'));
                assert(s.take(null_lit().len() as int) != null_lit());
            }
            assert(parse_lit(s, null_lit()) is None);
            lemma_parse_u64_round(n, rest);
        },
    }
}

/// A written task reads back as the task it was written from, leaving
/// whatever follows untouched.
#[verifier::rlimit(50)]
pub proof fn lemma_parse_task_obj(t: TaskView, rest: Seq<char>)
    ensures
        parse_task_obj(task_obj(t) + rest) == Some((t, rest)),
{
    reveal_strlit(", \"title\": \"");
    reveal_strlit(", \"created_at\": \"");
    let s = task_obj(t) + rest;
    let sid = dec_digits(t.id as nat);
    let sis = issue_text(t.github_issue_number);
    let f_ti = qfield(lab_title(), t.title);
    let f_de = qfield(lab_description(), t.description);
    let f_pr = qfield(lab_priority(), priority_label(t.priority));
    let f_st = qfield(lab_status(), status_label(t.status));
    let f_du = qfield(lab_due_date(), t.due_date);
    let f_cr = qfield(lab_created_at(), t.created_at);

    let c2 = lab_id() + sid;
    let c3 = c2 + f_ti;
    let c4 = c3 + f_de;
    let c5 = c4 + f_pr;
    let c6 = c5 + f_st;
    let c7 = c6 + f_du;
    let c8 = c7 + lab_issue();
    let c9 = c8 + sis;
    let c10 = c9 + f_cr;
    assert(task_obj(t) == c10 + rbrace());

    let s10 = rbrace() + rest;
    lemma_concat_associative(c10, rbrace(), rest);
    assert(s == c10 + s10);
    let s9 = f_cr + s10;
    lemma_concat_associative(c9, f_cr, s10);
    assert(s == c9 + s9);
    let s8 = sis + s9;
    lemma_concat_associative(c8, sis, s9);
    assert(s == c8 + s8);
    let s7 = lab_issue() + s8;
    lemma_concat_associative(c7, lab_issue(), s8);
    assert(s == c7 + s7);
    let s6 = f_du + s7;
    lemma_concat_associative(c6, f_du, s7);
    assert(s == c6 + s6);
    let s5 = f_st + s6;
    lemma_concat_associative(c5, f_st, s6);
    assert(s == c5 + s5);
    let s4 = f_pr + s5;
    lemma_concat_associative(c4, f_pr, s5);
    assert(s == c4 + s4);
    let s3 = f_de + s4;
    lemma_concat_associative(c3, f_de, s4);
    assert(s == c3 + s3);
    let s2 = f_ti + s3;
    lemma_concat_associative(c2, f_ti, s3);
    assert(s == c2 + s2);
    let s1 = sid + s2;
    lemma_concat_associative(lab_id(), sid, s2);
    assert(s == lab_id() + s1);

    lemma_parse_lit_exact(lab_id(), s1);
    assert(parse_lit(s, lab_id()) == Some(s1));

    assert(lab_title().len() == 12);
    assert(f_ti[0] == lab_title()[0]);
    assert(s2[0] == ',');
    assert(',' as u32 == 44);
    assert(!is_digit(s2[0]));
    lemma_parse_u64_round(t.id, s2);
    assert(parse_u64(s1) == Some((t.id, s2)));

    lemma_parse_qfield(lab_title(), t.title, s3);
    lemma_parse_qfield(lab_description(), t.description, s4);
    lemma_parse_qfield(lab_priority(), priority_label(t.priority), s5);
    lemma_priority_label_round(t.priority);
    lemma_parse_qfield(lab_status(), status_label(t.status), s6);
    lemma_status_label_round(t.status);
    lemma_parse_qfield(lab_due_date(), t.due_date, s7);

    lemma_parse_lit_exact(lab_issue(), s8);

    assert(lab_created_at().len() == 17);
    assert(f_cr[0] == lab_created_at()[0]);
    assert(s9[0] == ',');
    assert(!is_digit(s9[0]) && s9[0] != 'n');
    lemma_parse_issue_round(t.github_issue_number, s9);

    lemma_parse_qfield(lab_created_at(), t.created_at, s10);
    lemma_parse_lit_exact(rbrace(), rest);

    let tv = TaskView {
        id: t.id,
        title: t.title,
        description: t.description,
        priority: t.priority,
        status: t.status,
        due_date: t.due_date,
        github_issue_number: t.github_issue_number,
        created_at: t.created_at,
    };
    assert(tv =~= t);
    assert(parse_task_obj(s) == Some((t, rest)));
}

/// A written sequence of tasks reads back as the sequence it was written
/// from, provided what follows cannot be mistaken for a separator.
pub proof fn lemma_tasks_items_round(ts: Seq<TaskView>, rest: Seq<char>)
    requires
        ts.len() > 0,
        parse_lit(rest, item_sep()) is None,
    ensures
        parse_tasks_items(tasks_items(ts) + rest) == Some((ts, rest)),
    decreases ts.len(),
{
    reveal_strlit("{\"id\": ");
    reveal_strlit(",\n  ");
    let s = tasks_items(ts) + rest;
    if ts.len() == 1 {
        lemma_parse_task_obj(ts[0], rest);
        assert(seq![ts[0]] =~= ts);
    } else {
        let tail = tasks_items(ts.drop_first());
        assert(tasks_items(ts) == task_obj(ts[0]) + item_sep() + tail);
        let r0 = item_sep() + tail + rest;
        assert(s =~= task_obj(ts[0]) + r0);
        lemma_parse_task_obj(ts[0], r0);
        let r2 = tail + rest;
        assert(r0 =~= item_sep() + r2);
        lemma_parse_lit_exact(item_sep(), r2);
        assert(lab_id().len() == 7);
        assert(task_obj(ts[0]).len() >= 7);
        assert(item_sep().len() == 4);
        assert(r2.len() < s.len());
        lemma_tasks_items_round(ts.drop_first(), rest);
        assert(seq![ts[0]] + ts.drop_first() =~= ts);
    }
}

/// Writing a task list and reading the text back yields the same list:
/// persistence round-trips exactly, so saving, loading, and saving again
/// writes byte-for-byte identical text.
pub proof fn lemma_tasks_round_trip(ts: Seq<TaskView>)
    ensures
        parse_tasks_text(tasks_text(ts)) == Some(ts),
{
    reveal_strlit("[]");
    reveal_strlit("[\n  ");
    reveal_strlit("\n]");
    reveal_strlit(",\n  ");
    if ts.len() == 0 {
    } else {
        let s = arr_open() + tasks_items(ts) + arr_close();
        assert(arr_open().len() == 4 && arr_close().len() == 2 && empty_list().len() == 2);
        assert(s.len() >= 6);
        assert(s != empty_list());
        let r = tasks_items(ts) + arr_close();
        assert(s =~= arr_open() + r);
        lemma_parse_lit_exact(arr_open(), r);
        assert(item_sep().len() == 4);
        assert(parse_lit(arr_close(), item_sep()) is None);
        lemma_tasks_items_round(ts, arr_close());
    }
}

/// Saving, loading, and saving again writes byte-for-byte identical text:
/// the reload succeeds and re-serializes to the very same characters.
pub proof fn lemma_persistence_idempotent(ts: Seq<TaskView>)
    ensures
        parse_tasks_text(tasks_text(ts)) is Some,
        tasks_text(parse_tasks_text(tasks_text(ts))->0) == tasks_text(ts),
{
    lemma_tasks_round_trip(ts);
}

/// Extending the list appends one written task at the end of the items.
pub proof fn lemma_tasks_items_push(s: Seq<TaskView>, t: TaskView)
    ensures
        tasks_items(s.push(t)) == if s.len() == 0 {
            task_obj(t)
        } else {
            tasks_items(s) + item_sep() + task_obj(t)
        },
    decreases s.len(),
{
    if s.len() == 0 {
        assert(s.push(t)[0] == t);
        assert(tasks_items(s.push(t)) == task_obj(t));
    } else {
        assert(s.push(t)[0] == s[0]);
        assert(s.push(t).drop_first() =~= s.drop_first().push(t));
        lemma_tasks_items_push(s.drop_first(), t);
        if s.len() == 1 {
            assert(tasks_items(s.push(t)) == task_obj(s[0]) + item_sep() + tasks_items(
                seq![t],
            ));
            assert(s.drop_first().push(t) =~= seq![t]);
            assert(tasks_items(seq![t]) == task_obj(t));
            assert(tasks_items(s) == task_obj(s[0]));
        } else {
            assert(tasks_items(s.push(t)) == task_obj(s[0]) + item_sep() + tasks_items(
                s.drop_first().push(t),
            ));
            assert(tasks_items(s) == task_obj(s[0]) + item_sep() + tasks_items(s.drop_first()));
            assert(tasks_items(s.push(t)) =~= tasks_items(s) + item_sep() + task_obj(t));
        }
    }
}

/// Regrouping step for one appended quoted field.
proof fn lemma_qfield_step(o0: Seq<char>, c_prev: Seq<char>, p: Seq<char>, lab: Seq<char>, v: Seq<char>)
    requires
        p == o0 + c_prev,
    ensures
        ((p + lab) + escape_seq(v)) + quote() == o0 + (c_prev + qfield(lab, v)),
{
    lemma_concat_associative(p + lab, escape_seq(v), quote());
    lemma_concat_associative(p, lab, escape_seq(v) + quote());
    lemma_concat_associative(lab, escape_seq(v), quote());
    lemma_concat_associative(o0, c_prev, qfield(lab, v));
}

/// Appends the written form of one task.
fn append_task_obj(out: &mut String, t: &Task)
    ensures
        final(out)@ == old(out)@ + task_obj(t.deep_view()),
{
    let ghost o0 = out@;
    let ghost tv = t.deep_view();
    out.append("{\"id\": ");
    append_u64(out, t.id);
    let ghost c2 = lab_id() + dec_digits(tv.id as nat);
    proof {
        lemma_concat_associative(o0, lab_id(), dec_digits(tv.id as nat));
        assert(out@ == o0 + c2);
    }
    let ghost p3 = out@;
    out.append(", \"title\": \"");
    append_escaped(out, t.title.as_str());
    out.append("\"");
    let ghost c3 = c2 + qfield(lab_title(), tv.title);
    proof {
        lemma_qfield_step(o0, c2, p3, lab_title(), tv.title);
        assert(out@ == o0 + c3);
    }
    let ghost p4 = out@;
    out.append(", \"description\": \"");
    append_escaped(out, t.description.as_str());
    out.append("\"");
    let ghost c4 = c3 + qfield(lab_description(), tv.description);
    proof {
        lemma_qfield_step(o0, c3, p4, lab_description(), tv.description);
        assert(out@ == o0 + c4);
    }
    let ghost p5 = out@;
    out.append(", \"priority\": \"");
    append_escaped(out, t.priority.label());
    out.append("\"");
    let ghost c5 = c4 + qfield(lab_priority(), priority_label(tv.priority));
    proof {
        lemma_qfield_step(o0, c4, p5, lab_priority(), priority_label(tv.priority));
        assert(out@ == o0 + c5);
    }
    let ghost p6 = out@;
    out.append(", \"status\": \"");
    append_escaped(out, t.status.label());
    out.append("\"");
    let ghost c6 = c5 + qfield(lab_status(), status_label(tv.status));
    proof {
        lemma_qfield_step(o0, c5, p6, lab_status(), status_label(tv.status));
        assert(out@ == o0 + c6);
    }
    let ghost p7 = out@;
    out.append(", \"due_date\": \"");
    append_escaped(out, t.due_date.as_str());
    out.append("\"");
    let ghost c7 = c6 + qfield(lab_due_date(), tv.due_date);
    proof {
        lemma_qfield_step(o0, c6, p7, lab_due_date(), tv.due_date);
        assert(out@ == o0 + c7);
    }
    let ghost p8 = out@;
    out.append(", \"github_issue_number\": ");
    match t.github_issue_number {
        None => out.append("null"),
        Some(n) => append_u64(out, n),
    }
    let ghost c8 = c7 + lab_issue();
    let ghost c9 = c8 + issue_text(tv.github_issue_number);
    proof {
        assert(out@ == (p8 + lab_issue()) + issue_text(tv.github_issue_number));
        lemma_concat_associative(o0, c7, lab_issue());
        lemma_concat_associative(o0, c8, issue_text(tv.github_issue_number));
        assert(out@ == o0 + c9);
    }
    let ghost p10 = out@;
    out.append(", \"created_at\": \"");
    append_escaped(out, t.created_at.as_str());
    out.append("\"");
    let ghost c10 = c9 + qfield(lab_created_at(), tv.created_at);
    proof {
        lemma_qfield_step(o0, c9, p10, lab_created_at(), tv.created_at);
        assert(out@ == o0 + c10);
    }
    out.append("}");
    proof {
        lemma_concat_associative(o0, c10, rbrace());
        assert(task_obj(tv) == c10 + rbrace());
        assert(out@ == o0 + task_obj(tv));
    }
}

/// Writes the whole task list in its persisted text form.
pub fn tasks_to_text(tasks: &Vec<Task>) -> (r: String)
    ensures
        r@ == tasks_text(tasks.deep_view()),
{
    let ghost tsv = tasks.deep_view();
    proof {
        assert(tsv.len() == tasks@.len());
    }
    if tasks.len() == 0 {
        let r = String::from_str("[]");
        return r;
    }
    let mut out = String::new();
    out.append("[\n  ");
    let mut i: usize = 0;
    while i < tasks.len()
        invariant
            i <= tasks@.len(),
            tsv == tasks.deep_view(),
            tsv.len() == tasks@.len(),
            tasks@.len() > 0,
            i == 0 ==> out@ == arr_open(),
            i > 0 ==> out@ == arr_open() + tasks_items(tsv.take(i as int)),
        decreases tasks@.len() - i,
    {
        let ghost pre = out@;
        if i > 0 {
            out.append(",\n  ");
        }
        append_task_obj(&mut out, &tasks[i]);
        proof {
            assert(tasks[i as int].deep_view() == tsv[i as int]);
            lemma_tasks_items_push(tsv.take(i as int), tsv[i as int]);
            assert(tsv.take(i + 1) =~= tsv.take(i as int).push(tsv[i as int]));
            if i == 0 {
                assert(out@ =~= arr_open() + tasks_items(tsv.take(i + 1)));
            } else {
                assert(out@ =~= arr_open() + tasks_items(tsv.take(i + 1)));
            }
        }
        i = i + 1;
    }
    out.append("\n]");
    proof {
        assert(tsv.take(tsv.len() as int) =~= tsv);
        assert(out@ =~= tasks_text(tsv));
    }
    out
}

/// The priority a written name stands for, if any.
fn priority_from_label(s: &String) -> (r: Option<Priority>)
    ensures
        r == priority_of_label(s@),
{
    if s.eq(&String::from_str("Low")) {
        Some(Priority::Low)
    } else if s.eq(&String::from_str("Medium")) {
        Some(Priority::Medium)
    } else if s.eq(&String::from_str("High")) {
        Some(Priority::High)
    } else {
        None
    }
}

/// The status a written name stands for, if any.
fn status_from_label(s: &String) -> (r: Option<Status>)
    ensures
        r == status_of_label(s@),
{
    if s.eq(&String::from_str("Todo")) {
        Some(Status::Todo)
    } else if s.eq(&String::from_str("InProgress")) {
        Some(Status::InProgress)
    } else if s.eq(&String::from_str("NeedsHelp")) {
        Some(Status::NeedsHelp)
    } else if s.eq(&String::from_str("Done")) {
        Some(Status::Done)
    } else {
        None
    }
}

/// Consumes an optional issue number at position `i`.
fn p_issue(v: &Vec<char>, i: usize) -> (r: Option<(Option<u64>, usize)>)
    requires
        i <= v@.len(),
    ensures
        match r {
            Some(p) => i <= p.1 <= v@.len() && parse_issue(v@.skip(i as int)) == Some(
                (p.0, v@.skip(p.1 as int)),
            ),
            None => parse_issue(v@.skip(i as int)) is None,
        },
{
    match p_lit(v, i, "null") {
        Some(j) => Some((None, j)),
        None => match p_u64(v, i) {
            None => None,
            Some(p) => Some((Some(p.0), p.1)),
        },
    }
}

/// Consumes one written task at position `i`.
fn p_task_obj(v: &Vec<char>, i: usize) -> (r: Option<(Task, usize)>)
    requires
        i <= v@.len(),
    ensures
        match r {
            Some(p) => i <= p.1 <= v@.len() && parse_task_obj(v@.skip(i as int)) == Some(
                (p.0.deep_view(), v@.skip(p.1 as int)),
            ),
            None => parse_task_obj(v@.skip(i as int)) is None,
        },
{
    let j1 = match p_lit(v, i, "{\"id\": ") {
        Some(j) => j,
        None => {
            return None;
        },
    };
    let (id, j2) = match p_u64(v, j1) {
        Some(p) => p,
        None => {
            return None;
        },
    };
    let j3 = match p_lit(v, j2, ", \"title\": \"") {
        Some(j) => j,
        None => {
            return None;
        },
    };
    let mut title = String::new();
    let j4 = match p_string(v, j3, &mut title) {
        Some(j) => j,
        None => {
            return None;
        },
    };
    let j5 = match p_lit(v, j4, ", \"description\": \"") {
        Some(j) => j,
        None => {
            return None;
        },
    };
    let mut description = String::new();
    let j6 = match p_string(v, j5, &mut description) {
        Some(j) => j,
        None => {
            return None;
        },
    };
    let j7 = match p_lit(v, j6, ", \"priority\": \"") {
        Some(j) => j,
        None => {
            return None;
        },
    };
    let mut pl = String::new();
    let j8 = match p_string(v, j7, &mut pl) {
        Some(j) => j,
        None => {
            return None;
        },
    };
    let priority = match priority_from_label(&pl) {
        Some(p) => p,
        None => {
            return None;
        },
    };
    let j9 = match p_lit(v, j8, ", \"status\": \"") {
        Some(j) => j,
        None => {
            return None;
        },
    };
    let mut sl = String::new();
    let j10 = match p_string(v, j9, &mut sl) {
        Some(j) => j,
        None => {
            return None;
        },
    };
    let status = match status_from_label(&sl) {
        Some(s) => s,
        None => {
            return None;
        },
    };
    let j11 = match p_lit(v, j10, ", \"due_date\": \"") {
        Some(j) => j,
        None => {
            return None;
        },
    };
    let mut due_date = String::new();
    let j12 = match p_string(v, j11, &mut due_date) {
        Some(j) => j,
        None => {
            return None;
        },
    };
    let j13 = match p_lit(v, j12, ", \"github_issue_number\": ") {
        Some(j) => j,
        None => {
            return None;
        },
    };
    let (issue, j14) = match p_issue(v, j13) {
        Some(p) => p,
        None => {
            return None;
        },
    };
    let j15 = match p_lit(v, j14, ", \"created_at\": \"") {
        Some(j) => j,
        None => {
            return None;
        },
    };
    let mut created_at = String::new();
    let j16 = match p_string(v, j15, &mut created_at) {
        Some(j) => j,
        None => {
            return None;
        },
    };
    let j17 = match p_lit(v, j16, "}") {
        Some(j) => j,
        None => {
            return None;
        },
    };
    let t = Task {
        id,
        title,
        description,
        priority,
        status,
        due_date,
        github_issue_number: issue,
        created_at,
    };
    Some((t, j17))
}

/// Consumes one or more written tasks at position `i`, appending them to
/// `out`.
fn p_tasks_items(v: &Vec<char>, i: usize, out: &mut Vec<Task>) -> (r: Option<usize>)
    requires
        i <= v@.len(),
    ensures
        match r {
            Some(j) => j <= v@.len() && parse_tasks_items(v@.skip(i as int)) is Some
                && final(out).deep_view() == old(out).deep_view()
                + (parse_tasks_items(v@.skip(i as int))->0).0
                && v@.skip(j as int) == (parse_tasks_items(v@.skip(i as int))->0).1,
            None => parse_tasks_items(v@.skip(i as int)) is None,
        },
    decreases v@.len() - i,
{
    let (t, j) = match p_task_obj(v, i) {
        Some(p) => p,
        None => {
            return None;
        },
    };
    let ghost tv = t.deep_view();
    out.push(t);
    proof {
        assert(out.deep_view() =~= old(out).deep_view().push(tv));
    }
    match p_lit(v, j, ",\n  ") {
        Some(j2) => {
            proof {
                reveal_strlit(",\n  ");
                assert(item_sep().len() == 4);
                assert(v@.skip(j as int).skip(4) == v@.skip(j2 as int));
                assert(v@.skip(j2 as int).len() == v@.skip(j as int).len() - 4);
                assert(v@.skip(j2 as int).len() < v@.skip(i as int).len());
                assert(j2 > i);
            }
            match p_tasks_items(v, j2, out) {
                Some(j3) => {
                    proof {
                        let tail = (parse_tasks_items(v@.skip(j2 as int))->0).0;
                        assert(out.deep_view() == (old(out).deep_view().push(tv)) + tail);
                        assert(out.deep_view() =~= old(out).deep_view() + (seq![tv] + tail));
                    }
                    Some(j3)
                },
                None => None,
            }
        },
        None => {
            proof {
                assert(out.deep_view() =~= old(out).deep_view() + seq![tv]);
            }
            Some(j)
        },
    }
}

/// Reads a whole written task list; yields the list when the text is
/// exactly the written form of one.
pub fn tasks_from_text(s: &str) -> (r: Option<Vec<Task>>)
    ensures
        match r {
            Some(v) => parse_tasks_text(s@) == Some(v.deep_view()),
            None => parse_tasks_text(s@) is None,
        },
{
    let v = str_chars(s);
    proof {
        reveal_strlit("[]");
        reveal_strlit("\n]");
    }
    if v.len() == 2 {
        if v[0] == '[' && v[1] == ']' {
            proof {
                assert(s@ =~= empty_list());
            }
            let empty: Vec<Task> = Vec::new();
            proof {
                assert(empty.deep_view() =~= Seq::<TaskView>::empty());
            }
            return Some(empty);
        }
        proof {
            assert(s@ != empty_list());
        }
    } else {
        proof {
            assert(s@.len() != empty_list().len());
            assert(s@ != empty_list());
        }
    }
    let j0 = match p_lit(&v, 0, "[\n  ") {
        Some(j) => j,
        None => {
            proof {
                assert(v@.skip(0) =~= s@);
            }
            return None;
        },
    };
    proof {
        assert(v@.skip(0) =~= s@);
    }
    let mut out: Vec<Task> = Vec::new();
    let j1 = match p_tasks_items(&v, j0, &mut out) {
        Some(j) => j,
        None => {
            return None;
        },
    };
    let n = v.len();
    if n - j1 == 2 && v[j1] == '\n' && v[j1 + 1] == ']' {
        proof {
            assert(v@.skip(j1 as int) =~= arr_close());
            assert(out.deep_view() =~= Seq::<TaskView>::empty() + out.deep_view());
        }
        Some(out)
    } else {
        proof {
            if v@.skip(j1 as int) == arr_close() {
                assert(v@.skip(j1 as int).len() == 2);
                assert(v@.skip(j1 as int)[0] == '\n' && v@.skip(j1 as int)[1] == ']');
                assert(false);
            }
        }
        None
    }
}

} // verus!
