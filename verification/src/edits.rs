//! The edits a user can make to one task.
use vstd::prelude::*;
use crate::model::{Todo, Status, RecurrenceRule, same_todo, status_of, opt_view, task_status};
use crate::text::{str_equal, push_str};

verus! {

pub enum TodoEdit {
    Trash,
    Restore,
    Priority(u8),
    Significance(Option<u8>),
    Billable(bool),
    /// New scheduled day; the deadline is dropped.
    Date(Option<String>),
    AddTag(String),
    RemoveTag(String),
    Title(String),
    Notes(Option<String>),
    /// Schedule for today (the day key given).
    MoveToToday(String),
    MoveToProject(Option<String>),
    /// A status other than Done, with today's day key (stamped on a cancel).
    Status(Status, String),
    /// A new repeat rule, or none.
    Recurrence(Option<RecurrenceRule>),
}

/// Some listed text equals `x`.
pub open spec fn has_text(s: Seq<String>, x: Seq<char>) -> bool {
    exists|i: int| 0 <= i < s.len() && #[trigger] s[i]@ == x
}

/// The list without the texts equal to `x`, order kept.
pub open spec fn without_text(s: Seq<String>, x: Seq<char>) -> Seq<String>
    decreases s.len(),
{
    if s.len() == 0 {
        s
    } else if s.last()@ == x {
        without_text(s.drop_last(), x)
    } else {
        without_text(s.drop_last(), x).push(s.last())
    }
}

/// The stamp a cancel leaves in `completed_at`: noon of the given day.
pub open spec fn cancel_stamp(today: Seq<char>) -> Seq<char> {
    today + "T12:00:00"@
}

/// `t` is `b` after the edit.
pub open spec fn edited(b: Todo, e: TodoEdit, t: Todo) -> bool {
    match e {
        TodoEdit::Trash => same_todo(t, Todo { is_trashed: true, ..b }),
        TodoEdit::Restore => same_todo(t, Todo { is_trashed: false, ..b }),
        TodoEdit::Priority(p) => same_todo(t, Todo { priority: p, ..b }),
        TodoEdit::Significance(x) => same_todo(t, Todo { significance: x, ..b }),
        TodoEdit::Billable(x) => same_todo(t, Todo { billable: x, ..b }),
        TodoEdit::Date(d) => same_todo(t, Todo { scheduled_date: d, deadline: None, ..b }),
        TodoEdit::AddTag(tag) => {
            &&& same_todo(t, Todo { tag_ids: t.tag_ids, ..b })
            &&& t.tag_ids@ == if has_text(b.tag_ids@, tag@) { b.tag_ids@ } else { b.tag_ids@.push(tag) }
        },
        TodoEdit::RemoveTag(tag) => {
            &&& same_todo(t, Todo { tag_ids: t.tag_ids, ..b })
            &&& t.tag_ids@ == without_text(b.tag_ids@, tag@)
        },
        TodoEdit::Title(x) => same_todo(t, Todo { title: x, ..b }),
        TodoEdit::Notes(x) => same_todo(t, Todo { notes: x, ..b }),
        TodoEdit::MoveToToday(k) => same_todo(
            t,
            Todo {
                status: Status::Todo,
                scheduled_date: Some(k),
                deadline: None,
                is_today: false,
                is_someday: false,
                ..b
            },
        ),
        TodoEdit::MoveToProject(pid) => same_todo(
            t,
            Todo {
                project_id: pid,
                status: if status_of(b) == Status::Inbox { Status::Todo } else { b.status },
                is_someday: false,
                ..b
            },
        ),
        TodoEdit::Status(s, k) => {
            &&& same_todo(
                t,
                Todo {
                    status: s,
                    is_completed: false,
                    completed_at: t.completed_at,
                    is_cancelled: s == Status::Canceled,
                    is_someday: s == Status::Deferred,
                    is_today: false,
                    ..b
                },
            )
            &&& opt_view(t.completed_at) == if s == Status::Canceled {
                Some(cancel_stamp(k@))
            } else {
                None
            }
        },
        TodoEdit::Recurrence(r) => same_todo(t, Todo { recurrence: r, ..b }),
    }
}

fn has_tag(tags: &Vec<String>, tag: &str) -> (r: bool)
    ensures
        r == has_text(tags@, tag@),
{
    let mut i: usize = 0;
    while i < tags.len()
        invariant
            i <= tags@.len(),
            forall|j: int| 0 <= j < i ==> tags@[j]@ != tag@,
        decreases tags@.len() - i,
    {
        if str_equal(tags[i].as_str(), tag) {
            return true;
        }
        i = i + 1;
    }
    false
}

fn drop_tag(tags: &Vec<String>, tag: &str) -> (r: Vec<String>)
    ensures
        r@ == without_text(tags@, tag@),
{
    let mut r: Vec<String> = Vec::new();
    let mut i: usize = 0;
    while i < tags.len()
        invariant
            i <= tags@.len(),
            r@ == without_text(tags@.take(i as int), tag@),
        decreases tags@.len() - i,
    {
        proof {
            assert(tags@.take(i + 1).drop_last() =~= tags@.take(i as int));
            assert(tags@.take(i + 1).last() == tags@[i as int]);
        }
        if !str_equal(tags[i].as_str(), tag) {
            r.push(tags[i].clone());
        }
        i = i + 1;
    }
    proof {
        assert(tags@.take(tags@.len() as int) =~= tags@);
    }
    r
}

/// The task after an edit.
pub fn edit_todo(b: &Todo, e: TodoEdit) -> (t: Todo)
    ensures
        edited(*b, e, t),
{
    let mut t = b.copy();
    match e {
        TodoEdit::Trash => {
            t.is_trashed = true;
        },
        TodoEdit::Restore => {
            t.is_trashed = false;
        },
        TodoEdit::Priority(p) => {
            t.priority = p;
        },
        TodoEdit::Significance(x) => {
            t.significance = x;
        },
        TodoEdit::Billable(x) => {
            t.billable = x;
        },
        TodoEdit::Date(d) => {
            t.scheduled_date = d;
            t.deadline = None;
        },
        TodoEdit::AddTag(tag) => {
            if !has_tag(&t.tag_ids, tag.as_str()) {
                t.tag_ids.push(tag);
            }
        },
        TodoEdit::RemoveTag(tag) => {
            t.tag_ids = drop_tag(&b.tag_ids, tag.as_str());
        },
        TodoEdit::Title(x) => {
            t.title = x;
        },
        TodoEdit::Notes(x) => {
            t.notes = x;
        },
        TodoEdit::MoveToToday(k) => {
            t.status = Status::Todo;
            t.scheduled_date = Some(k);
            t.deadline = None;
            t.is_today = false;
            t.is_someday = false;
        },
        TodoEdit::MoveToProject(pid) => {
            t.project_id = pid;
            if task_status(&t) == Status::Inbox {
                t.status = Status::Todo;
            }
            t.is_someday = false;
        },
        TodoEdit::Status(s, k) => {
            t.status = s;
            t.is_completed = false;
            t.completed_at = if s == Status::Canceled {
                let mut stamp = k;
                push_str(&mut stamp, "T12:00:00");
                Some(stamp)
            } else {
                None
            };
            t.is_cancelled = s == Status::Canceled;
            t.is_someday = s == Status::Deferred;
            t.is_today = false;
        },
        TodoEdit::Recurrence(r) => {
            t.recurrence = r;
        },
    }
    t
}

} // verus!
