//! The task model: statuses, tasks, projects and the other records of the
//! agenda, with the lifecycle predicates that every list is built from.
use vstd::prelude::*;
use vstd::utf8::*;
use crate::text::{text_lt, str_less, str_equal};

verus! {

broadcast use vstd::utf8::encode_utf8_decode_utf8;

#[derive(Clone, Copy, PartialEq, Eq, Debug, Structural)]
pub enum Status {
    Inbox,
    Todo,
    Started,
    Deferred,
    Done,
    Canceled,
}

/// How a task repeats.
pub struct RecurrenceRule {
    /// 0 daily, 1 weekly, 2 monthly, 3 yearly.
    pub frequency: u8,
    pub interval: u32,
    /// 0 on a fixed schedule, 1 counted from completion.
    pub recurrence_type: u8,
    /// ISO weekdays, 1 = Monday .. 7 = Sunday.
    pub days_of_week: Vec<u8>,
}

#[derive(Clone, Copy, PartialEq, Eq, Debug, Structural)]
pub struct ChecklistItem {
    pub is_completed: bool,
}

pub struct Todo {
    pub id: String,
    pub title: String,
    pub notes: Option<String>,
    /// 0 none, 1 low, 2 medium, 3 high.
    pub priority: u8,
    pub scheduled_date: Option<String>,
    pub deadline: Option<String>,
    pub reminder_date: Option<String>,
    pub is_today: bool,
    pub is_evening: bool,
    pub is_someday: bool,
    pub status: Status,
    pub system_kind: Option<String>,
    pub is_completed: bool,
    pub completed_at: Option<String>,
    pub is_cancelled: bool,
    pub is_trashed: bool,
    pub created_at: String,
    pub heading_id: Option<String>,
    pub project_id: Option<String>,
    pub area_id: Option<String>,
    pub tag_ids: Vec<String>,
    pub checklist: Vec<ChecklistItem>,
    pub recurrence: Option<RecurrenceRule>,
    pub billable: bool,
    pub price: Option<i64>,
    pub significance: Option<u8>,
    pub fuel_cost: Option<u32>,
    pub sort_order: i32,
}

pub struct Project {
    pub id: String,
    pub title: String,
    /// 0 active, 1 someday, 2 completed.
    pub status: u8,
    pub deadline: Option<String>,
    pub sort_order: i32,
    pub area_id: Option<String>,
}

pub struct Area {
    pub id: String,
    pub title: String,
    pub sort_order: i32,
}

pub struct Tag {
    pub id: String,
    pub title: String,
    pub color: String,
}

pub struct Heading {
    pub id: String,
    pub title: String,
    pub sort_order: i32,
    pub project_id: String,
}

pub struct CalEvent {
    pub id: String,
    pub title: String,
    pub starts_at: String,
    pub ends_at: Option<String>,
    pub location: Option<String>,
}

// ---------------------------------------------------------------------------
// Copies that keep every field
// ---------------------------------------------------------------------------

pub fn copy_opt_string(o: &Option<String>) -> (r: Option<String>)
    ensures
        r == *o,
{
    match o {
        Some(s) => Some(s.clone()),
        None => None,
    }
}

pub fn copy_strings(v: &Vec<String>) -> (r: Vec<String>)
    ensures
        r@ == v@,
{
    let mut r: Vec<String> = Vec::new();
    let mut i: usize = 0;
    while i < v.len()
        invariant
            i <= v@.len(),
            r@ == v@.take(i as int),
        decreases v@.len() - i,
    {
        r.push(v[i].clone());
        proof {
            assert(v@.take(i + 1) =~= v@.take(i as int).push(v@[i as int]));
        }
        i = i + 1;
    }
    proof {
        assert(v@.take(v@.len() as int) =~= v@);
    }
    r
}

pub fn copy_bytes(v: &Vec<u8>) -> (r: Vec<u8>)
    ensures
        r@ == v@,
{
    let mut r: Vec<u8> = Vec::new();
    let mut i: usize = 0;
    while i < v.len()
        invariant
            i <= v@.len(),
            r@ == v@.take(i as int),
        decreases v@.len() - i,
    {
        r.push(v[i]);
        proof {
            assert(v@.take(i + 1) =~= v@.take(i as int).push(v@[i as int]));
        }
        i = i + 1;
    }
    proof {
        assert(v@.take(v@.len() as int) =~= v@);
    }
    r
}

pub fn copy_checklist(v: &Vec<ChecklistItem>) -> (r: Vec<ChecklistItem>)
    ensures
        r@ == v@,
{
    let mut r: Vec<ChecklistItem> = Vec::new();
    let mut i: usize = 0;
    while i < v.len()
        invariant
            i <= v@.len(),
            r@ == v@.take(i as int),
        decreases v@.len() - i,
    {
        r.push(v[i]);
        proof {
            assert(v@.take(i + 1) =~= v@.take(i as int).push(v@[i as int]));
        }
        i = i + 1;
    }
    proof {
        assert(v@.take(v@.len() as int) =~= v@);
    }
    r
}

impl RecurrenceRule {
    pub fn copy(&self) -> (r: RecurrenceRule)
        ensures
            r.frequency == self.frequency,
            r.interval == self.interval,
            r.recurrence_type == self.recurrence_type,
            r.days_of_week@ == self.days_of_week@,
    {
        RecurrenceRule {
            frequency: self.frequency,
            interval: self.interval,
            recurrence_type: self.recurrence_type,
            days_of_week: copy_bytes(&self.days_of_week),
        }
    }
}

/// Two recurrence rules that agree on every field.
pub open spec fn same_rule(a: RecurrenceRule, b: RecurrenceRule) -> bool {
    &&& a.frequency == b.frequency
    &&& a.interval == b.interval
    &&& a.recurrence_type == b.recurrence_type
    &&& a.days_of_week@ == b.days_of_week@
}

pub open spec fn same_opt_rule(a: Option<RecurrenceRule>, b: Option<RecurrenceRule>) -> bool {
    match (a, b) {
        (Some(x), Some(y)) => same_rule(x, y),
        (None, None) => true,
        _ => false,
    }
}

/// Two tasks that agree on every field (texts and lists by their contents).
pub open spec fn same_todo(a: Todo, b: Todo) -> bool {
    &&& a.id == b.id
    &&& a.title == b.title
    &&& a.notes == b.notes
    &&& a.priority == b.priority
    &&& a.scheduled_date == b.scheduled_date
    &&& a.deadline == b.deadline
    &&& a.reminder_date == b.reminder_date
    &&& a.is_today == b.is_today
    &&& a.is_evening == b.is_evening
    &&& a.is_someday == b.is_someday
    &&& a.status == b.status
    &&& a.system_kind == b.system_kind
    &&& a.is_completed == b.is_completed
    &&& a.completed_at == b.completed_at
    &&& a.is_cancelled == b.is_cancelled
    &&& a.is_trashed == b.is_trashed
    &&& a.created_at == b.created_at
    &&& a.heading_id == b.heading_id
    &&& a.project_id == b.project_id
    &&& a.area_id == b.area_id
    &&& a.tag_ids@ == b.tag_ids@
    &&& a.checklist@ == b.checklist@
    &&& same_opt_rule(a.recurrence, b.recurrence)
    &&& a.billable == b.billable
    &&& a.price == b.price
    &&& a.significance == b.significance
    &&& a.fuel_cost == b.fuel_cost
    &&& a.sort_order == b.sort_order
}

impl Todo {
    /// A field-for-field copy of the task.
    pub fn copy(&self) -> (r: Todo)
        ensures
            same_todo(r, *self),
    {
        Todo {
            id: self.id.clone(),
            title: self.title.clone(),
            notes: copy_opt_string(&self.notes),
            priority: self.priority,
            scheduled_date: copy_opt_string(&self.scheduled_date),
            deadline: copy_opt_string(&self.deadline),
            reminder_date: copy_opt_string(&self.reminder_date),
            is_today: self.is_today,
            is_evening: self.is_evening,
            is_someday: self.is_someday,
            status: self.status,
            system_kind: copy_opt_string(&self.system_kind),
            is_completed: self.is_completed,
            completed_at: copy_opt_string(&self.completed_at),
            is_cancelled: self.is_cancelled,
            is_trashed: self.is_trashed,
            created_at: self.created_at.clone(),
            heading_id: copy_opt_string(&self.heading_id),
            project_id: copy_opt_string(&self.project_id),
            area_id: copy_opt_string(&self.area_id),
            tag_ids: copy_strings(&self.tag_ids),
            checklist: copy_checklist(&self.checklist),
            recurrence: match &self.recurrence {
                Some(r) => Some(r.copy()),
                None => None,
            },
            billable: self.billable,
            price: self.price,
            significance: self.significance,
            fuel_cost: self.fuel_cost,
            sort_order: self.sort_order,
        }
    }
}

impl Project {
    pub fn copy(&self) -> (r: Project)
        ensures
            r == *self,
    {
        Project {
            id: self.id.clone(),
            title: self.title.clone(),
            status: self.status,
            deadline: copy_opt_string(&self.deadline),
            sort_order: self.sort_order,
            area_id: copy_opt_string(&self.area_id),
        }
    }
}

pub(crate) fn opt_string_equal(a: &Option<String>, b: &Option<String>) -> (r: bool)
    ensures
        r == (opt_view(*a) == opt_view(*b)),
{
    match (a, b) {
        (Some(x), Some(y)) => str_equal(x.as_str(), y.as_str()),
        (None, None) => true,
        _ => false,
    }
}

pub(crate) fn strings_equal(a: &Vec<String>, b: &Vec<String>) -> (r: bool)
    ensures
        r == (a@.map_values(|s: String| s@) == b@.map_values(|s: String| s@)),
{
    let ghost av = a@.map_values(|s: String| s@);
    let ghost bv = b@.map_values(|s: String| s@);
    if a.len() != b.len() {
        proof {
            assert(av.len() != bv.len());
        }
        return false;
    }
    let mut i: usize = 0;
    while i < a.len()
        invariant
            a@.len() == b@.len(),
            av == a@.map_values(|s: String| s@),
            bv == b@.map_values(|s: String| s@),
            i <= a@.len(),
            forall|j: int| 0 <= j < i ==> a@[j]@ == b@[j]@,
        decreases a@.len() - i,
    {
        if !str_equal(a[i].as_str(), b[i].as_str()) {
            proof {
                assert(av[i as int] != bv[i as int]);
            }
            return false;
        }
        i = i + 1;
    }
    proof {
        assert(av =~= bv);
    }
    true
}

fn bytes_vec_equal(a: &Vec<u8>, b: &Vec<u8>) -> (r: bool)
    ensures
        r == (a@ == b@),
{
    crate::text::bytes_equal(a.as_slice(), b.as_slice())
}

fn checklist_equal(a: &Vec<ChecklistItem>, b: &Vec<ChecklistItem>) -> (r: bool)
    ensures
        r == (a@ == b@),
{
    if a.len() != b.len() {
        return false;
    }
    let mut i: usize = 0;
    while i < a.len()
        invariant
            a@.len() == b@.len(),
            i <= a@.len(),
            forall|j: int| 0 <= j < i ==> a@[j] == b@[j],
        decreases a@.len() - i,
    {
        if a[i].is_completed != b[i].is_completed {
            return false;
        }
        i = i + 1;
    }
    proof {
        assert(a@ =~= b@);
    }
    true
}

/// Two tasks with equal contents: texts and lists compared by what they hold.
pub open spec fn todo_eq(a: Todo, b: Todo) -> bool {
    &&& a.id@ == b.id@
    &&& a.title@ == b.title@
    &&& opt_view(a.notes) == opt_view(b.notes)
    &&& a.priority == b.priority
    &&& opt_view(a.scheduled_date) == opt_view(b.scheduled_date)
    &&& opt_view(a.deadline) == opt_view(b.deadline)
    &&& opt_view(a.reminder_date) == opt_view(b.reminder_date)
    &&& a.is_today == b.is_today
    &&& a.is_evening == b.is_evening
    &&& a.is_someday == b.is_someday
    &&& a.status == b.status
    &&& opt_view(a.system_kind) == opt_view(b.system_kind)
    &&& a.is_completed == b.is_completed
    &&& opt_view(a.completed_at) == opt_view(b.completed_at)
    &&& a.is_cancelled == b.is_cancelled
    &&& a.is_trashed == b.is_trashed
    &&& a.created_at@ == b.created_at@
    &&& opt_view(a.heading_id) == opt_view(b.heading_id)
    &&& opt_view(a.project_id) == opt_view(b.project_id)
    &&& opt_view(a.area_id) == opt_view(b.area_id)
    &&& a.tag_ids@.map_values(|s: String| s@) == b.tag_ids@.map_values(|s: String| s@)
    &&& a.checklist@ == b.checklist@
    &&& same_opt_rule(a.recurrence, b.recurrence)
    &&& a.billable == b.billable
    &&& a.price == b.price
    &&& a.significance == b.significance
    &&& a.fuel_cost == b.fuel_cost
    &&& a.sort_order == b.sort_order
}

/// `==` on tasks: every field equal.
pub fn todo_equal(a: &Todo, b: &Todo) -> (r: bool)
    ensures
        r == todo_eq(*a, *b),
{
    let rules = match (&a.recurrence, &b.recurrence) {
        (Some(x), Some(y)) => x.frequency == y.frequency && x.interval == y.interval
            && x.recurrence_type == y.recurrence_type && bytes_vec_equal(&x.days_of_week, &y.days_of_week),
        (None, None) => true,
        _ => false,
    };
    str_equal(a.id.as_str(), b.id.as_str())
    && str_equal(a.title.as_str(), b.title.as_str())
    && opt_string_equal(&a.notes, &b.notes)
    && a.priority == b.priority
    && opt_string_equal(&a.scheduled_date, &b.scheduled_date)
    && opt_string_equal(&a.deadline, &b.deadline)
    && opt_string_equal(&a.reminder_date, &b.reminder_date)
    && a.is_today == b.is_today
    && a.is_evening == b.is_evening
    && a.is_someday == b.is_someday
    && a.status == b.status
    && opt_string_equal(&a.system_kind, &b.system_kind)
    && a.is_completed == b.is_completed
    && opt_string_equal(&a.completed_at, &b.completed_at)
    && a.is_cancelled == b.is_cancelled
    && a.is_trashed == b.is_trashed
    && str_equal(a.created_at.as_str(), b.created_at.as_str())
    && opt_string_equal(&a.heading_id, &b.heading_id)
    && opt_string_equal(&a.project_id, &b.project_id)
    && opt_string_equal(&a.area_id, &b.area_id)
    && strings_equal(&a.tag_ids, &b.tag_ids)
    && checklist_equal(&a.checklist, &b.checklist)
    && rules
    && a.billable == b.billable
    && a.price == b.price
    && a.significance == b.significance
    && a.fuel_cost == b.fuel_cost
    && a.sort_order == b.sort_order
}

// ---------------------------------------------------------------------------
// Dates stored on tasks
// ---------------------------------------------------------------------------

/// The calendar-day part of a stored date: its first ten bytes, if it has
/// that many ("YYYY-MM-DD" of both a day key and an ISO date-time).
pub open spec fn date_part(v: Seq<char>) -> Option<Seq<char>> {
    if encode_utf8(v).len() >= 10 {
        Some(decode_utf8(encode_utf8(v).take(10)))
    } else {
        None
    }
}

/// A stored date can be cut after its tenth byte (always so for ASCII dates).
pub open spec fn date_cuttable(v: Seq<char>) -> bool {
    encode_utf8(v).len() < 10 || is_char_boundary(encode_utf8(v), 10)
}

pub open spec fn opt_date_cuttable(v: Option<String>) -> bool {
    match v {
        Some(s) => date_cuttable(s@),
        None => true,
    }
}

pub open spec fn opt_view(v: Option<String>) -> Option<Seq<char>> {
    match v {
        Some(s) => Some(s@),
        None => None,
    }
}

pub open spec fn opt_date_part(v: Option<String>) -> Option<Seq<char>> {
    match v {
        Some(s) => date_part(s@),
        None => None,
    }
}

/// The scheduled day and the deadline can be cut to their day parts.
pub open spec fn day_dates_cuttable(t: Todo) -> bool {
    &&& opt_date_cuttable(t.scheduled_date)
    &&& opt_date_cuttable(t.deadline)
}

/// Every task's completion date can be cut to its day part.
pub open spec fn completions_cuttable(ts: Seq<Todo>) -> bool {
    forall|i: int| 0 <= i < ts.len() ==> #[trigger] opt_date_cuttable(ts[i].completed_at)
}

/// Day part of a stored date ("YYYY-MM-DD" or an ISO date-time).
pub fn date_only(value: &Option<String>) -> (r: Option<String>)
    requires
        opt_date_cuttable(*value),
    ensures
        opt_view(r) == opt_date_part(*value),
{
    match value {
        None => None,
        Some(v) => {
            if v.as_str().as_bytes().len() >= 10 {
                let (head, _tail) = v.as_str().split_at(10);
                let out = head.to_owned();
                proof {
                    assert(encode_utf8(v@).take(10) =~= encode_utf8(v@).subrange(0, 10));
                    assert(encode_utf8(out@) == encode_utf8(v@).take(10));
                    vstd::utf8::encode_utf8_decode_utf8(out@);
                }
                Some(out)
            } else {
                None
            }
        },
    }
}

/// The task's calendar day and whether its dates conflict: the deadline wins
/// over the scheduled day, two different days are a conflict with no day.
pub open spec fn task_date_of(t: Todo) -> (Option<Seq<char>>, bool) {
    let scheduled = opt_date_part(t.scheduled_date);
    let deadline = opt_date_part(t.deadline);
    if scheduled is Some && deadline is Some && scheduled != deadline {
        (None, true)
    } else if deadline is Some {
        (deadline, false)
    } else {
        (scheduled, false)
    }
}

pub fn task_date(t: &Todo) -> (r: (Option<String>, bool))
    requires
        day_dates_cuttable(*t),
    ensures
        opt_view(r.0) == task_date_of(*t).0,
        r.1 == task_date_of(*t).1,
{
    let scheduled = date_only(&t.scheduled_date);
    let deadline = date_only(&t.deadline);
    let differ = match (&scheduled, &deadline) {
        (Some(s), Some(d)) => !str_equal(s.as_str(), d.as_str()),
        _ => false,
    };
    if differ {
        return (None, true);
    }
    match deadline {
        Some(d) => (Some(d), false),
        None => (scheduled, false),
    }
}

// ---------------------------------------------------------------------------
// Status and lifecycle predicates
// ---------------------------------------------------------------------------

pub open spec fn status_of(t: Todo) -> Status {
    if t.is_cancelled || t.status == Status::Canceled {
        Status::Canceled
    } else if t.is_completed || t.status == Status::Done {
        Status::Done
    } else {
        match t.status {
            Status::Started => Status::Started,
            Status::Deferred => Status::Deferred,
            Status::Todo => Status::Todo,
            _ => Status::Inbox,
        }
    }
}

pub fn task_status(t: &Todo) -> (r: Status)
    ensures
        r == status_of(*t),
{
    if t.is_cancelled || t.status == Status::Canceled {
        return Status::Canceled;
    }
    if t.is_completed || t.status == Status::Done {
        return Status::Done;
    }
    match t.status {
        Status::Started => Status::Started,
        Status::Deferred => Status::Deferred,
        Status::Todo => Status::Todo,
        _ => Status::Inbox,
    }
}

pub open spec fn active(t: Todo) -> bool {
    status_of(t) != Status::Done && status_of(t) != Status::Canceled && !t.is_trashed
}

pub open spec fn in_inbox(t: Todo) -> bool {
    status_of(t) == Status::Inbox && !t.is_trashed
}

pub open spec fn deferred(t: Todo) -> bool {
    (status_of(t) == Status::Deferred || t.is_someday) && !t.is_trashed
}

pub fn is_active(t: &Todo) -> (r: bool)
    ensures
        r == active(*t),
{
    let s = task_status(t);
    s != Status::Done && s != Status::Canceled && !t.is_trashed
}

pub fn is_inbox(t: &Todo) -> (r: bool)
    ensures
        r == in_inbox(*t),
{
    task_status(t) == Status::Inbox && !t.is_trashed
}

pub fn is_deferred(t: &Todo) -> (r: bool)
    ensures
        r == deferred(*t),
{
    (task_status(t) == Status::Deferred || t.is_someday) && !t.is_trashed
}

/// Active, planned (not inbox, not deferred, not a service task) and dated
/// strictly before `today`.
pub open spec fn overdue(t: Todo, today: Seq<char>) -> bool {
    &&& active(t)
    &&& !in_inbox(t)
    &&& !deferred(t)
    &&& t.system_kind is None
    &&& !task_date_of(t).1
    &&& match task_date_of(t).0 {
        Some(d) => text_lt(d, today),
        None => false,
    }
}

/// Active, planned, and dated `today` (or undated and flagged for today).
pub open spec fn due_today(t: Todo, today: Seq<char>) -> bool {
    &&& active(t)
    &&& !in_inbox(t)
    &&& !deferred(t)
    &&& !task_date_of(t).1
    &&& (task_date_of(t).0 == Some(today) || (task_date_of(t).0 is None && t.is_today))
}

/// Active, planned and not deferred: the tasks whose day is read to tell
/// whether they are overdue or due today.
pub open spec fn planned_open(t: Todo) -> bool {
    active(t) && !in_inbox(t) && !deferred(t)
}

/// The day of a task whose day is read can be cut to its day part.
pub open spec fn open_dates_cuttable(t: Todo) -> bool {
    planned_open(t) ==> day_dates_cuttable(t)
}

/// The completion date of a task whose completion is read can be cut.
pub open spec fn done_dates_cuttable(t: Todo) -> bool {
    shown_done(t) ==> opt_date_cuttable(t.completed_at)
}

/// Done and not trashed: the tasks whose completion date is read.
pub open spec fn shown_done(t: Todo) -> bool {
    status_of(t) == Status::Done && !t.is_trashed
}

/// Done (not trashed) with its completion on `today`.
pub open spec fn done_on(t: Todo, today: Seq<char>) -> bool {
    status_of(t) == Status::Done && !t.is_trashed && opt_date_part(t.completed_at) == Some(today)
}

/// Done (not trashed) with its completion before `today`.
pub open spec fn archived(t: Todo, today: Seq<char>) -> bool {
    &&& status_of(t) == Status::Done
    &&& !t.is_trashed
    &&& match opt_date_part(t.completed_at) {
        Some(d) => text_lt(d, today),
        None => false,
    }
}

pub fn is_overdue(t: &Todo, today: &str) -> (r: bool)
    requires
        open_dates_cuttable(*t),
    ensures
        r == overdue(*t, today@),
{
    if !is_active(t) || is_inbox(t) || is_deferred(t) || t.system_kind.is_some() {
        return false;
    }
    let (date, conflict) = task_date(t);
    if conflict {
        return false;
    }
    match date {
        Some(d) => str_less(d.as_str(), today),
        None => false,
    }
}

pub fn is_due_today(t: &Todo, today: &str) -> (r: bool)
    requires
        open_dates_cuttable(*t),
    ensures
        r == due_today(*t, today@),
{
    if !is_active(t) || is_inbox(t) || is_deferred(t) {
        return false;
    }
    let (date, conflict) = task_date(t);
    if conflict {
        return false;
    }
    match date {
        Some(d) => str_equal(d.as_str(), today),
        None => t.is_today,
    }
}

pub fn completed_on(t: &Todo, today: &str) -> (r: bool)
    requires
        shown_done(*t) ==> opt_date_cuttable(t.completed_at),
    ensures
        r == done_on(*t, today@),
{
    if task_status(t) != Status::Done || t.is_trashed {
        return false;
    }
    match date_only(&t.completed_at) {
        Some(d) => str_equal(d.as_str(), today),
        None => false,
    }
}

pub fn is_archived(t: &Todo, today: &str) -> (r: bool)
    requires
        shown_done(*t) ==> opt_date_cuttable(t.completed_at),
    ensures
        r == archived(*t, today@),
{
    if task_status(t) != Status::Done || t.is_trashed {
        return false;
    }
    match date_only(&t.completed_at) {
        Some(d) => str_less(d.as_str(), today),
        None => false,
    }
}

/// A task as `new_todo` makes it: the given id and title, an inbox task with
/// nothing else set.
pub open spec fn fresh_todo(t: Todo, id: Seq<char>, title: Seq<char>) -> bool {
    &&& t.id@ == id
    &&& t.title@ == title
    &&& t.notes is None
    &&& t.priority == 0
    &&& t.scheduled_date is None
    &&& t.deadline is None
    &&& t.reminder_date is None
    &&& !t.is_today
    &&& !t.is_evening
    &&& !t.is_someday
    &&& t.status == Status::Inbox
    &&& t.system_kind is None
    &&& !t.is_completed
    &&& t.completed_at is None
    &&& !t.is_cancelled
    &&& !t.is_trashed
    &&& t.created_at@.len() == 0
    &&& t.heading_id is None
    &&& t.project_id is None
    &&& t.area_id is None
    &&& t.tag_ids@.len() == 0
    &&& t.checklist@.len() == 0
    &&& t.recurrence is None
    &&& !t.billable
    &&& t.price is None
    &&& t.significance is None
    &&& t.fuel_cost is None
    &&& t.sort_order == 0
}

/// A new inbox task with the given id and title.
pub fn new_todo(id: String, title: &str) -> (t: Todo)
    ensures
        fresh_todo(t, id@, title@),
{
    Todo {
        id,
        title: title.to_owned(),
        notes: None,
        priority: 0,
        scheduled_date: None,
        deadline: None,
        reminder_date: None,
        is_today: false,
        is_evening: false,
        is_someday: false,
        status: Status::Inbox,
        system_kind: None,
        is_completed: false,
        completed_at: None,
        is_cancelled: false,
        is_trashed: false,
        created_at: String::new(),
        heading_id: None,
        project_id: None,
        area_id: None,
        tag_ids: Vec::new(),
        checklist: Vec::new(),
        recurrence: None,
        billable: false,
        price: None,
        significance: None,
        fuel_cost: None,
        sort_order: 0,
    }
}

} // verus!
