//! The task objects of the Engine store, held as plain values, and how a
//! task is read from one and written into one. A field an object lacks
//! reads as the new task's default (no text, zero, false, empty).
use vstd::prelude::*;
use crate::model::{Todo, Status, ChecklistItem, RecurrenceRule, opt_view, status_of,
    copy_opt_string, copy_strings, copy_checklist, copy_bytes, opt_string_equal, strings_equal};
use crate::engine::{status_word, local_status, engine_status_of, status_word_of, priority_name,
    frequency_name, opt_str, read_status, write_status, write_priority, read_frequency,
    write_frequency, read_recurrence_type, write_recurrence_type, read_priority, law_status_round_trip};
use crate::doc::{DocNode, plain_text, plain_text_of, node_text, nodes_text, block_kind};
use crate::text::{trim_ws, trim_start_ws, is_ws};
use crate::dates::{utc_now_rfc3339, rfc3339_shaped};
use crate::text::{str_equal, bytes_equal};
use crate::model::{same_opt_rule, todo_eq};

verus! {

/// The type id of task objects.
pub open spec fn task_type() -> Seq<char> {
    "com.kosmos.task"@
}

/// A repeat rule as stored: the period as a number or as a word, the
/// kind as a number or as a word, and the end conditions the Engine owns.
#[derive(Clone, Debug, PartialEq)]
pub struct EngineRule {
    pub frequency: Option<u8>,
    pub frequency_word: Option<String>,
    pub interval: Option<u32>,
    pub recurrence_type: Option<u8>,
    pub type_word: Option<String>,
    pub days_of_week: Option<Vec<u8>>,
    pub end_date: Option<String>,
    pub day_of_month: Option<i64>,
}

/// The extensions of a task object: the agenda's own fields (`None` where
/// absent or null), the notes, checklist and rule it keeps there, the
/// backlog bucket, and every other field, kept as it is.
#[derive(Clone, Debug, PartialEq)]
pub struct TaskExt {
    pub priority: Option<u64>,
    pub scheduled_date: Option<String>,
    pub deadline: Option<String>,
    pub reminder_date: Option<String>,
    pub is_today: Option<bool>,
    pub is_evening: Option<bool>,
    pub is_someday: Option<bool>,
    /// The agenda's status word.
    pub status: Option<String>,
    pub system_kind: Option<String>,
    pub is_completed: Option<bool>,
    pub completed_at: Option<String>,
    pub is_cancelled: Option<bool>,
    pub is_trashed: Option<bool>,
    pub created_at: Option<String>,
    pub heading_id: Option<String>,
    pub project_id: Option<String>,
    pub area_id: Option<String>,
    pub tag_ids: Option<Vec<String>>,
    pub billable: Option<bool>,
    pub price: Option<i64>,
    pub significance: Option<u8>,
    pub fuel_cost: Option<u32>,
    pub sort_order: Option<i32>,
    pub description: Option<String>,
    pub checklist_items: Option<Vec<ChecklistItem>>,
    pub recurrence_rule: Option<EngineRule>,
    pub cancelled_at: Option<String>,
    /// `kosmos.taskBucket`.
    pub bucket: Option<String>,
    /// Fields the agenda does not know, by name, with their stored text.
    pub unknown: Vec<(String, String)>,
}

/// The Engine's own properties of a task object.
#[derive(Clone, Debug, PartialEq)]
pub struct EngineProps {
    /// The Engine status word.
    pub status: Option<String>,
    /// The priority where it is stored as a number.
    pub priority: Option<u64>,
    /// The priority where it is stored as a word.
    pub priority_word: Option<String>,
    pub scheduled_at: Option<String>,
    pub due_at: Option<String>,
    pub reminder_at: Option<String>,
    pub completed_at: Option<String>,
    pub canceled_at: Option<String>,
    pub checklist: Option<Vec<ChecklistItem>>,
    pub recurrence: Option<EngineRule>,
    pub ext: TaskExt,
    /// Other properties, kept as they are.
    pub other: Vec<(String, String)>,
}

/// A task object of the Engine store.
#[derive(Debug)]
pub struct EngineTask {
    /// `None` where the id is missing or not a string.
    pub id: Option<String>,
    pub type_id: Option<String>,
    pub type_version: Option<String>,
    pub title: Option<String>,
    pub created_at: Option<String>,
    pub updated_at: Option<String>,
    pub deleted_at: Option<String>,
    pub content: Option<DocNode>,
    pub props: EngineProps,
    /// Other top-level fields, kept as they are.
    pub other: Vec<(String, String)>,
}

// ---------------------------------------------------------------------------
// Reading
// ---------------------------------------------------------------------------

pub open spec fn text_or_empty(v: Option<String>) -> Seq<char> {
    match v {
        Some(s) => s@,
        None => ""@,
    }
}

/// The local status a status word names.
pub open spec fn status_named(w: Seq<char>) -> Status {
    if w == "started"@ {
        Status::Started
    } else if w == "done"@ {
        Status::Done
    } else if w == "canceled"@ {
        Status::Canceled
    } else if w == "deferred"@ {
        Status::Deferred
    } else if w == "todo"@ {
        Status::Todo
    } else {
        Status::Inbox
    }
}

/// The repeat rule read: the extensions' rule where there is one, else the
/// Engine's.
pub open spec fn rule_of(o: EngineTask) -> Option<EngineRule> {
    match o.props.ext.recurrence_rule {
        Some(r) => Some(r),
        None => o.props.recurrence,
    }
}

/// A rule's period word is one the agenda does not know.
pub open spec fn unknown_period(r: EngineRule) -> bool {
    match r.frequency_word {
        Some(w) => forall|f: u8| f < 4 ==> frequency_name(f) != w@,
        None => false,
    }
}

/// The object is refused: not a task, an id that is not a text, or a repeat
/// period it does not know.
pub open spec fn read_refused(o: EngineTask) -> bool {
    ||| opt_view(o.type_id) != Some(task_type())
    ||| o.id is None
    ||| (rule_of(o) matches Some(r) && unknown_period(r))
}

/// Why an object is refused: it is no task or its id is no text, else its
/// repeat period is unknown.
pub open spec fn read_error(o: EngineTask) -> Seq<char> {
    if opt_view(o.type_id) != Some(task_type()) || o.id is None {
        "Engine вернул некорректную задачу"@
    } else {
        "Некорректная периодичность задачи"@
    }
}

/// The period of a rule: its word's number, else its number.
pub open spec fn period_of(r: EngineRule) -> u8 {
    match r.frequency_word {
        Some(w) => choose|f: u8| f < 4 && frequency_name(f) == w@,
        None => match r.frequency {
            Some(f) => f,
            None => 0,
        },
    }
}

pub open spec fn kind_of(r: EngineRule) -> u8 {
    match r.type_word {
        Some(w) => if w@ == "afterCompletion"@ {
            1u8
        } else {
            0u8
        },
        None => match r.recurrence_type {
            Some(k) => k,
            None => 0,
        },
    }
}

/// `x` is the rule read from `r`.
pub open spec fn rule_read(r: EngineRule, x: RecurrenceRule) -> bool {
    &&& x.frequency == period_of(r)
    &&& x.interval == match r.interval {
        Some(i) => i,
        None => 0,
    }
    &&& x.recurrence_type == kind_of(r)
    &&& x.days_of_week@ == match r.days_of_week {
        Some(d) => d@,
        None => seq![],
    }
}

/// The status word read: the extension's where it refines an open Engine
/// status, "deferred" for an open task in the backlog bucket, else the
/// Engine's, else the extension's.
pub open spec fn word_of(o: EngineTask) -> Option<Seq<char>> {
    status_word(opt_view(o.props.status), opt_view(o.props.ext.status), opt_view(o.props.ext.bucket) == Some("backlog"@))
}

/// A status is stored at all.
pub open spec fn has_status(o: EngineTask) -> bool {
    o.props.status is Some || o.props.ext.status is Some
}

pub open spec fn date_read(local: Option<String>, canonical: Option<String>) -> Option<Seq<char>> {
    match local {
        Some(d) => Some(d@),
        None => opt_view(canonical),
    }
}

/// The priority read: the extension's number, else the Engine's, at most 3.
pub open spec fn priority_read(ext: Option<u64>, canonical: Option<u64>) -> int {
    let p: int = match ext {
        Some(p) => p as int,
        None => match canonical {
            Some(p) => p as int,
            None => 0,
        },
    };
    if p < 3 { p } else { 3 }
}

pub open spec fn flag(v: Option<bool>) -> bool {
    match v {
        Some(b) => b,
        None => false,
    }
}

/// `t` is the task read from `o` (which is not refused).
pub open spec fn read_as(o: EngineTask, t: Todo) -> bool {
    let x = o.props.ext;
    let status = status_named(local_status(word_of(o)));
    &&& opt_view(o.id) == Some(t.id@)
    &&& t.title@ == text_or_empty(o.title)
    &&& opt_view(t.notes) == match x.description {
        Some(d) => Some(d@),
        None => match o.content {
            Some(c) => plain_text_of(c),
            None => None,
        },
    }
    &&& t.priority as int == priority_read(x.priority, o.props.priority)
    &&& opt_view(t.scheduled_date) == date_read(x.scheduled_date, o.props.scheduled_at)
    &&& opt_view(t.deadline) == date_read(x.deadline, o.props.due_at)
    &&& opt_view(t.reminder_date) == date_read(x.reminder_date, o.props.reminder_at)
    &&& opt_view(t.completed_at) == date_read(x.completed_at, o.props.completed_at)
    &&& t.is_today == flag(x.is_today)
    &&& t.is_evening == flag(x.is_evening)
    &&& t.is_someday == flag(x.is_someday)
    &&& t.status == status
    &&& opt_view(t.system_kind) == opt_view(x.system_kind)
    &&& t.is_completed == if has_status(o) { status == Status::Done } else { flag(x.is_completed) }
    &&& t.is_cancelled == if has_status(o) { status == Status::Canceled } else { flag(x.is_cancelled) }
    &&& t.is_trashed == (flag(x.is_trashed) || o.deleted_at is Some)
    &&& t.created_at@ == match x.created_at {
        Some(c) => c@,
        None => text_or_empty(o.created_at),
    }
    &&& opt_view(t.heading_id) == opt_view(x.heading_id)
    &&& opt_view(t.project_id) == opt_view(x.project_id)
    &&& opt_view(t.area_id) == opt_view(x.area_id)
    &&& t.tag_ids@.map_values(|s: String| s@) == match x.tag_ids {
        Some(v) => v@.map_values(|s: String| s@),
        None => seq![],
    }
    &&& t.checklist@ == match o.props.checklist {
        Some(c) => c@,
        None => match x.checklist_items {
            Some(c) => c@,
            None => seq![],
        },
    }
    &&& match rule_of(o) {
        Some(r) => t.recurrence matches Some(y) && rule_read(r, y),
        None => t.recurrence is None,
    }
    &&& t.billable == flag(x.billable)
    &&& t.price == x.price
    &&& t.significance == x.significance
    &&& t.fuel_cost == x.fuel_cost
    &&& t.sort_order == match x.sort_order {
        Some(s) => s,
        None => 0,
    }
}

fn status_of_word(w: &str) -> (s: Status)
    ensures
        s == status_named(w@),
{
    if str_equal(w, "started") {
        Status::Started
    } else if str_equal(w, "done") {
        Status::Done
    } else if str_equal(w, "canceled") {
        Status::Canceled
    } else if str_equal(w, "deferred") {
        Status::Deferred
    } else if str_equal(w, "todo") {
        Status::Todo
    } else {
        Status::Inbox
    }
}

fn as_str_opt(v: &Option<String>) -> (r: Option<&str>)
    ensures
        opt_str(r) == opt_view(*v),
{
    match v {
        Some(s) => Some(s.as_str()),
        None => None,
    }
}

fn pick_date(local: &Option<String>, canonical: &Option<String>) -> (r: Option<String>)
    ensures
        opt_view(r) == date_read(*local, *canonical),
{
    match local {
        Some(d) => Some(d.clone()),
        None => copy_opt_string(canonical),
    }
}

fn flag_of(v: Option<bool>) -> (r: bool)
    ensures
        r == flag(v),
{
    match v {
        Some(b) => b,
        None => false,
    }
}

/// Reads the rule, or refuses an unknown period word.
fn read_rule(r: &EngineRule) -> (out: Result<RecurrenceRule, String>)
    ensures
        match out {
            Ok(x) => !unknown_period(*r) && rule_read(*r, x),
            Err(e) => unknown_period(*r) && e@ == "Некорректная периодичность задачи"@,
        },
{
    let frequency = match &r.frequency_word {
        Some(w) => match read_frequency(w.as_str()) {
            Ok(f) => f,
            Err(e) => {
                return Err(e);
            },
        },
        None => match r.frequency {
            Some(f) => f,
            None => 0,
        },
    };
    let recurrence_type = match &r.type_word {
        Some(w) => read_recurrence_type(w.as_str()),
        None => match r.recurrence_type {
            Some(k) => k,
            None => 0,
        },
    };
    let days = match &r.days_of_week {
        Some(d) => copy_bytes(d),
        None => Vec::new(),
    };
    let x = RecurrenceRule {
        frequency,
        interval: match r.interval {
            Some(i) => i,
            None => 0,
        },
        recurrence_type,
        days_of_week: days,
    };
    let ghost fw = r.frequency_word;
    proof {
        match fw {
            Some(w) => {
                assert(frequency < 4 && frequency_name(frequency) == w@);
                let f = choose|f: u8| f < 4 && frequency_name(f) == w@;
                crate::engine::lemma_frequency_names_distinct(f, frequency);
            },
            None => {},
        }
    }
    Ok(x)
}

/// Reads the task an Engine object holds, or refuses the object.
pub fn read(o: &EngineTask) -> (r: Result<Todo, String>)
    ensures
        r is Err <==> read_refused(*o),
        r matches Ok(t) ==> read_as(*o, t),
        r matches Err(e) ==> e@ == read_error(*o),
{
    let is_task = match &o.type_id {
        Some(k) => str_equal(k.as_str(), "com.kosmos.task"),
        None => false,
    };
    if !is_task {
        return Err("Engine вернул некорректную задачу".to_owned());
    }
    let id = match &o.id {
        Some(i) => i.clone(),
        None => {
            return Err("Engine вернул некорректную задачу".to_owned());
        },
    };
    let x = &o.props.ext;
    let rule_src = match &x.recurrence_rule {
        Some(r) => Some(r),
        None => match &o.props.recurrence {
            Some(r) => Some(r),
            None => None,
        },
    };
    let recurrence = match rule_src {
        Some(r) => match read_rule(r) {
            Ok(y) => Some(y),
            Err(e) => {
                return Err(e);
            },
        },
        None => None,
    };
    let backlog = match &x.bucket {
        Some(b) => str_equal(b.as_str(), "backlog"),
        None => false,
    };
    let word = read_status(as_str_opt(&o.props.status), as_str_opt(&x.status), backlog);
    let status = status_of_word(word);
    let stored = o.props.status.is_some() || x.status.is_some();
    let notes = match &x.description {
        Some(d) => Some(d.clone()),
        None => match &o.content {
            Some(c) => plain_text(c),
            None => None,
        },
    };
    let t = Todo {
        id,
        title: match &o.title {
            Some(s) => s.clone(),
            None => String::new(),
        },
        notes,
        priority: read_priority(x.priority, o.props.priority) as u8,
        scheduled_date: pick_date(&x.scheduled_date, &o.props.scheduled_at),
        deadline: pick_date(&x.deadline, &o.props.due_at),
        reminder_date: pick_date(&x.reminder_date, &o.props.reminder_at),
        is_today: flag_of(x.is_today),
        is_evening: flag_of(x.is_evening),
        is_someday: flag_of(x.is_someday),
        status,
        system_kind: copy_opt_string(&x.system_kind),
        is_completed: if stored { status == Status::Done } else { flag_of(x.is_completed) },
        completed_at: pick_date(&x.completed_at, &o.props.completed_at),
        is_cancelled: if stored { status == Status::Canceled } else { flag_of(x.is_cancelled) },
        is_trashed: flag_of(x.is_trashed) || o.deleted_at.is_some(),
        created_at: match &x.created_at {
            Some(c) => c.clone(),
            None => match &o.created_at {
                Some(c) => c.clone(),
                None => String::new(),
            },
        },
        heading_id: copy_opt_string(&x.heading_id),
        project_id: copy_opt_string(&x.project_id),
        area_id: copy_opt_string(&x.area_id),
        tag_ids: match &x.tag_ids {
            Some(v) => copy_strings(v),
            None => Vec::new(),
        },
        checklist: match &o.props.checklist {
            Some(c) => copy_checklist(c),
            None => match &x.checklist_items {
                Some(c) => copy_checklist(c),
                None => Vec::new(),
            },
        },
        recurrence,
        billable: flag_of(x.billable),
        price: x.price,
        significance: x.significance,
        fuel_cost: x.fuel_cost,
        sort_order: match x.sort_order {
            Some(s) => s,
            None => 0,
        },
    };
    proof {
        reveal_strlit("com.kosmos.task");
        reveal_strlit("");
        assert(""@ =~= Seq::<char>::empty());
        assert(t.tag_ids@.map_values(|s: String| s@) =~= match x.tag_ids {
            Some(v) => v@.map_values(|s: String| s@),
            None => Seq::<Seq<char>>::empty(),
        });
    }
    Ok(t)
}

// ---------------------------------------------------------------------------
// Writing
// ---------------------------------------------------------------------------

/// Which of a task's stored fields a write has to put down.
pub struct Changes {
    pub title: bool,
    pub notes: bool,
    pub priority: bool,
    pub scheduled_date: bool,
    pub deadline: bool,
    pub reminder_date: bool,
    pub is_today: bool,
    pub is_evening: bool,
    pub is_someday: bool,
    /// The status word alone.
    pub status_word: bool,
    /// The status, the completion flag or the cancel flag.
    pub status: bool,
    pub system_kind: bool,
    pub is_completed: bool,
    pub completed_at: bool,
    pub is_cancelled: bool,
    pub is_trashed: bool,
    pub created_at: bool,
    pub heading_id: bool,
    pub project_id: bool,
    pub area_id: bool,
    pub tag_ids: bool,
    pub recurrence: bool,
    pub billable: bool,
    pub price: bool,
    pub significance: bool,
    pub fuel_cost: bool,
    pub sort_order: bool,
}

pub open spec fn texts(v: Vec<String>) -> Seq<Seq<char>> {
    v@.map_values(|s: String| s@)
}

/// The fields in which `todo` differs from `before`; every field of a task
/// that has no earlier version.
pub open spec fn differs(before: Option<Todo>, todo: Todo) -> Changes {
    match before {
        None => Changes {
            title: true,
            notes: true,
            priority: true,
            scheduled_date: true,
            deadline: true,
            reminder_date: true,
            is_today: true,
            is_evening: true,
            is_someday: true,
            status_word: true,
            status: true,
            system_kind: true,
            is_completed: true,
            completed_at: true,
            is_cancelled: true,
            is_trashed: true,
            created_at: true,
            heading_id: true,
            project_id: true,
            area_id: true,
            tag_ids: true,
            recurrence: true,
            billable: true,
            price: true,
            significance: true,
            fuel_cost: true,
            sort_order: true,
        },
        Some(b) => Changes {
            title: b.title@ != todo.title@,
            notes: opt_view(b.notes) != opt_view(todo.notes),
            priority: b.priority != todo.priority,
            scheduled_date: opt_view(b.scheduled_date) != opt_view(todo.scheduled_date),
            deadline: opt_view(b.deadline) != opt_view(todo.deadline),
            reminder_date: opt_view(b.reminder_date) != opt_view(todo.reminder_date),
            is_today: b.is_today != todo.is_today,
            is_evening: b.is_evening != todo.is_evening,
            is_someday: b.is_someday != todo.is_someday,
            status_word: b.status != todo.status,
            status: b.status != todo.status || b.is_completed != todo.is_completed
                || b.is_cancelled != todo.is_cancelled,
            system_kind: opt_view(b.system_kind) != opt_view(todo.system_kind),
            is_completed: b.is_completed != todo.is_completed,
            completed_at: opt_view(b.completed_at) != opt_view(todo.completed_at),
            is_cancelled: b.is_cancelled != todo.is_cancelled,
            is_trashed: b.is_trashed != todo.is_trashed,
            created_at: b.created_at@ != todo.created_at@,
            heading_id: opt_view(b.heading_id) != opt_view(todo.heading_id),
            project_id: opt_view(b.project_id) != opt_view(todo.project_id),
            area_id: opt_view(b.area_id) != opt_view(todo.area_id),
            tag_ids: texts(b.tag_ids) != texts(todo.tag_ids),
            recurrence: !same_opt_rule(b.recurrence, todo.recurrence),
            billable: b.billable != todo.billable,
            price: b.price != todo.price,
            significance: b.significance != todo.significance,
            fuel_cost: b.fuel_cost != todo.fuel_cost,
            sort_order: b.sort_order != todo.sort_order,
        },
    }
}

fn rules_equal(a: &Option<RecurrenceRule>, b: &Option<RecurrenceRule>) -> (r: bool)
    ensures
        r == same_opt_rule(*a, *b),
{
    match (a, b) {
        (Some(x), Some(y)) => x.frequency == y.frequency && x.interval == y.interval
            && x.recurrence_type == y.recurrence_type && bytes_equal(x.days_of_week.as_slice(), y.days_of_week.as_slice()),
        (None, None) => true,
        _ => false,
    }
}

fn changes(before: Option<&Todo>, todo: &Todo) -> (c: Changes)
    ensures
        c == differs(opt_todo(before), *todo),
{
    match before {
        None => Changes {
            title: true,
            notes: true,
            priority: true,
            scheduled_date: true,
            deadline: true,
            reminder_date: true,
            is_today: true,
            is_evening: true,
            is_someday: true,
            status_word: true,
            status: true,
            system_kind: true,
            is_completed: true,
            completed_at: true,
            is_cancelled: true,
            is_trashed: true,
            created_at: true,
            heading_id: true,
            project_id: true,
            area_id: true,
            tag_ids: true,
            recurrence: true,
            billable: true,
            price: true,
            significance: true,
            fuel_cost: true,
            sort_order: true,
        },
        Some(b) => Changes {
            title: !str_equal(b.title.as_str(), todo.title.as_str()),
            notes: !opt_string_equal(&b.notes, &todo.notes),
            priority: b.priority != todo.priority,
            scheduled_date: !opt_string_equal(&b.scheduled_date, &todo.scheduled_date),
            deadline: !opt_string_equal(&b.deadline, &todo.deadline),
            reminder_date: !opt_string_equal(&b.reminder_date, &todo.reminder_date),
            is_today: b.is_today != todo.is_today,
            is_evening: b.is_evening != todo.is_evening,
            is_someday: b.is_someday != todo.is_someday,
            status_word: b.status != todo.status,
            status: b.status != todo.status || b.is_completed != todo.is_completed
                || b.is_cancelled != todo.is_cancelled,
            system_kind: !opt_string_equal(&b.system_kind, &todo.system_kind),
            is_completed: b.is_completed != todo.is_completed,
            completed_at: !opt_string_equal(&b.completed_at, &todo.completed_at),
            is_cancelled: b.is_cancelled != todo.is_cancelled,
            is_trashed: b.is_trashed != todo.is_trashed,
            created_at: !str_equal(b.created_at.as_str(), todo.created_at.as_str()),
            heading_id: !opt_string_equal(&b.heading_id, &todo.heading_id),
            project_id: !opt_string_equal(&b.project_id, &todo.project_id),
            area_id: !opt_string_equal(&b.area_id, &todo.area_id),
            tag_ids: !strings_equal(&b.tag_ids, &todo.tag_ids),
            recurrence: !rules_equal(&b.recurrence, &todo.recurrence),
            billable: b.billable != todo.billable,
            price: b.price != todo.price,
            significance: b.significance != todo.significance,
            fuel_cost: b.fuel_cost != todo.fuel_cost,
            sort_order: b.sort_order != todo.sort_order,
        },
    }
}

pub open spec fn opt_todo(t: Option<&Todo>) -> Option<Todo> {
    match t {
        Some(x) => Some(*x),
        None => None,
    }
}

/// A node of a given kind with the given text and children.
pub open spec fn node_is(n: DocNode, kind: Seq<char>, text: Option<Seq<char>>) -> bool {
    opt_view(n.kind) == Some(kind) && opt_view(n.text) == text
}

/// A document of one empty paragraph.
pub open spec fn empty_doc(d: DocNode) -> bool {
    &&& node_is(d, "doc"@, None)
    &&& d.content matches Some(cs) && cs@.len() == 1 && node_is(cs@[0], "paragraph"@, None)
        && cs@[0].content is None
}

/// A document of one paragraph holding `text`.
pub open spec fn text_doc(d: DocNode, text: Seq<char>) -> bool {
    &&& node_is(d, "doc"@, None)
    &&& d.content matches Some(cs) && cs@.len() == 1 && node_is(cs@[0], "paragraph"@, None)
        && (cs@[0].content matches Some(ts) && ts@.len() == 1 && node_is(ts@[0], "text"@, Some(text))
        && ts@[0].content is None)
}

/// Extensions with none of the agenda's fields and nothing else.
pub open spec fn bare_ext(x: TaskExt) -> bool {
    &&& x.priority is None && x.scheduled_date is None && x.deadline is None
    &&& x.reminder_date is None && x.is_today is None && x.is_evening is None
    &&& x.is_someday is None && x.status is None && x.system_kind is None
    &&& x.is_completed is None && x.completed_at is None && x.is_cancelled is None
    &&& x.is_trashed is None && x.created_at is None && x.heading_id is None
    &&& x.project_id is None && x.area_id is None && x.tag_ids is None
    &&& x.billable is None && x.price is None && x.significance is None
    &&& x.fuel_cost is None && x.sort_order is None && x.description is None
    &&& x.checklist_items is None && x.recurrence_rule is None && x.cancelled_at is None
    &&& x.bucket is None && x.unknown@.len() == 0
}

/// The object a new task starts from: its id, the task type at version
/// 1.0.0, its title and creation stamp, empty extensions, a document of
/// one empty paragraph, and no deletion stamp.
pub open spec fn fresh_for(todo: Todo, o: EngineTask) -> bool {
    &&& opt_view(o.id) == Some(todo.id@)
    &&& opt_view(o.type_id) == Some(task_type())
    &&& opt_view(o.type_version) == Some("1.0.0"@)
    &&& opt_view(o.title) == Some(todo.title@)
    &&& opt_view(o.created_at) == Some(todo.created_at@)
    &&& o.updated_at is None
    &&& o.deleted_at is None
    &&& o.content matches Some(d) && empty_doc(d)
    &&& o.other@.len() == 0
    &&& o.props.status is None && o.props.priority is None && o.props.priority_word is None
    &&& o.props.scheduled_at is None && o.props.due_at is None && o.props.reminder_at is None
    &&& o.props.completed_at is None && o.props.canceled_at is None
    &&& o.props.checklist is None && o.props.recurrence is None
    &&& o.props.other@.len() == 0
    &&& bare_ext(o.props.ext)
}

/// The end conditions of a rule, taken over from the rule stored before.
pub open spec fn ends_kept(e: EngineRule, stored: Option<EngineRule>) -> bool {
    match stored {
        Some(s) => opt_view(e.end_date) == opt_view(s.end_date) && e.day_of_month == s.day_of_month,
        None => e.end_date is None && e.day_of_month is None,
    }
}

/// A rule written with numbers, as the extensions keep it.
pub open spec fn rule_in_numbers(e: EngineRule, t: RecurrenceRule, stored: Option<EngineRule>) -> bool {
    &&& e.frequency == Some(t.frequency) && e.frequency_word is None
    &&& e.interval == Some(t.interval)
    &&& e.recurrence_type == Some(t.recurrence_type) && e.type_word is None
    &&& e.days_of_week matches Some(d) && d@ == t.days_of_week@
    &&& ends_kept(e, stored)
}

pub open spec fn kind_name(k: u8) -> Seq<char> {
    if k == 1 {
        "afterCompletion"@
    } else {
        "fixed"@
    }
}

/// A rule written with words, as the Engine keeps it.
pub open spec fn rule_in_words(e: EngineRule, t: RecurrenceRule, stored: Option<EngineRule>) -> bool {
    &&& e.frequency is None && opt_view(e.frequency_word) == Some(frequency_name(t.frequency))
    &&& e.interval == Some(t.interval)
    &&& e.recurrence_type is None && opt_view(e.type_word) == Some(kind_name(t.recurrence_type))
    &&& e.days_of_week matches Some(d) && d@ == t.days_of_week@
    &&& ends_kept(e, stored)
}

pub open spec fn opt_texts(v: Option<Vec<String>>) -> Option<Seq<Seq<char>>> {
    match v {
        Some(x) => Some(texts(x)),
        None => None,
    }
}

/// A stamp set to `now` when `on`, cleared otherwise.
pub open spec fn stamp(on: bool, now: Seq<char>) -> Option<Seq<char>> {
    if on {
        Some(now)
    } else {
        None
    }
}

/// `y` are the extensions `x` after writing `todo` over `before`: each
/// changed field of the task is put down, every other entry stays.
pub open spec fn ext_patched(x: TaskExt, before: Option<Todo>, todo: Todo, now: Seq<char>, stored_rule: Option<EngineRule>, y: TaskExt) -> bool {
    let c = differs(before, todo);
    &&& y.priority == if c.priority { Some(todo.priority as u64) } else { x.priority }
    &&& if c.scheduled_date { opt_view(y.scheduled_date) == opt_view(todo.scheduled_date) } else { y.scheduled_date == x.scheduled_date }
    &&& if c.deadline { opt_view(y.deadline) == opt_view(todo.deadline) } else { y.deadline == x.deadline }
    &&& if c.reminder_date { opt_view(y.reminder_date) == opt_view(todo.reminder_date) } else { y.reminder_date == x.reminder_date }
    &&& y.is_today == if c.is_today { Some(todo.is_today) } else { x.is_today }
    &&& y.is_evening == if c.is_evening { Some(todo.is_evening) } else { x.is_evening }
    &&& y.is_someday == if c.is_someday { Some(todo.is_someday) } else { x.is_someday }
    &&& if c.status { opt_view(y.status) == Some(status_word_of(todo.status)) } else { y.status == x.status }
    &&& if c.system_kind { opt_view(y.system_kind) == opt_view(todo.system_kind) } else { y.system_kind == x.system_kind }
    &&& y.is_completed == if c.is_completed { Some(todo.is_completed) } else { x.is_completed }
    &&& if c.completed_at { opt_view(y.completed_at) == opt_view(todo.completed_at) } else { y.completed_at == x.completed_at }
    &&& y.is_cancelled == if c.is_cancelled { Some(todo.is_cancelled) } else { x.is_cancelled }
    &&& y.is_trashed == if c.is_trashed { Some(todo.is_trashed) } else { x.is_trashed }
    &&& if c.created_at { opt_view(y.created_at) == Some(todo.created_at@) } else { y.created_at == x.created_at }
    &&& if c.heading_id { opt_view(y.heading_id) == opt_view(todo.heading_id) } else { y.heading_id == x.heading_id }
    &&& if c.project_id { opt_view(y.project_id) == opt_view(todo.project_id) } else { y.project_id == x.project_id }
    &&& if c.area_id { opt_view(y.area_id) == opt_view(todo.area_id) } else { y.area_id == x.area_id }
    &&& if c.tag_ids { opt_texts(y.tag_ids) == Some(texts(todo.tag_ids)) } else { y.tag_ids == x.tag_ids }
    &&& y.billable == if c.billable { Some(todo.billable) } else { x.billable }
    &&& y.price == if c.price { todo.price } else { x.price }
    &&& y.significance == if c.significance { todo.significance } else { x.significance }
    &&& y.fuel_cost == if c.fuel_cost { todo.fuel_cost } else { x.fuel_cost }
    &&& y.sort_order == if c.sort_order { Some(todo.sort_order) } else { x.sort_order }
    &&& if c.notes { opt_view(y.description) == opt_view(todo.notes) } else { y.description == x.description }
    &&& if before is None {
        y.checklist_items matches Some(v) && v@.len() == 0
    } else {
        y.checklist_items == x.checklist_items
    }
    &&& if c.recurrence {
        match todo.recurrence {
            Some(t) => y.recurrence_rule matches Some(e) && rule_in_numbers(e, t, stored_rule),
            None => y.recurrence_rule is None,
        }
    } else {
        y.recurrence_rule == x.recurrence_rule
    }
    &&& if c.status { opt_view(y.cancelled_at) == stamp(todo.is_cancelled, now) } else { y.cancelled_at == x.cancelled_at }
    &&& if c.status {
        opt_view(y.bucket) == if todo.status == Status::Deferred { Some("backlog"@) } else { None }
    } else {
        y.bucket == x.bucket
    }
    &&& y.unknown == x.unknown
}

/// `r` is the object `o` after writing `todo` over `before` at the instant
/// `now`: the changed fields are put down in the extensions and in the
/// Engine's own properties, the status, priority and rule in the Engine's
/// words, the end conditions of a stored rule and everything the task does
/// not carry stay, and the update stamp is `now`.
pub open spec fn patched(o: EngineTask, before: Option<Todo>, todo: Todo, now: Seq<char>, r: EngineTask) -> bool {
    let c = differs(before, todo);
    let p = o.props;
    let q = r.props;
    &&& r.id == o.id && r.type_id == o.type_id && r.type_version == o.type_version
    &&& r.created_at == o.created_at && r.other == o.other
    &&& if c.title { opt_view(r.title) == Some(todo.title@) } else { r.title == o.title }
    &&& if c.notes {
        r.content matches Some(d) && text_doc(d, text_or_empty(todo.notes))
    } else {
        r.content == o.content
    }
    &&& if c.is_trashed { opt_view(r.deleted_at) == stamp(todo.is_trashed, now) } else { r.deleted_at == o.deleted_at }
    &&& opt_view(r.updated_at) == Some(now)
    &&& if c.status { opt_view(q.status) == Some(engine_status_of(status_of(todo))) } else { q.status == p.status }
    &&& if c.priority {
        q.priority is None && opt_view(q.priority_word) == Some(priority_name(todo.priority))
    } else {
        q.priority == p.priority && q.priority_word == p.priority_word
    }
    &&& if c.scheduled_date { opt_view(q.scheduled_at) == opt_view(todo.scheduled_date) } else { q.scheduled_at == p.scheduled_at }
    &&& if c.deadline { opt_view(q.due_at) == opt_view(todo.deadline) } else { q.due_at == p.due_at }
    &&& if c.reminder_date { opt_view(q.reminder_at) == opt_view(todo.reminder_date) } else { q.reminder_at == p.reminder_at }
    &&& if c.completed_at { opt_view(q.completed_at) == opt_view(todo.completed_at) } else { q.completed_at == p.completed_at }
    &&& if c.status { opt_view(q.canceled_at) == stamp(todo.is_cancelled, now) } else { q.canceled_at == p.canceled_at }
    &&& if before is None {
        q.checklist matches Some(v) && v@.len() == 0
    } else {
        q.checklist == p.checklist
    }
    &&& if c.recurrence {
        match todo.recurrence {
            Some(t) => q.recurrence matches Some(e) && rule_in_words(e, t, p.recurrence),
            None => q.recurrence is None,
        }
    } else {
        q.recurrence == p.recurrence
    }
    &&& q.other == p.other
    &&& ext_patched(p.ext, before, todo, now, p.recurrence, q.ext)
}

fn node(kind: &str, text: Option<String>, content: Option<Vec<DocNode>>) -> (n: DocNode)
    ensures
        opt_view(n.kind) == Some(kind@),
        n.text == text,
        n.content == content,
{
    DocNode { text, kind: Some(kind.to_owned()), content }
}

fn empty_paragraph_doc() -> (d: DocNode)
    ensures
        empty_doc(d),
{
    let p = node("paragraph", None, None);
    let mut cs: Vec<DocNode> = Vec::new();
    cs.push(p);
    node("doc", None, Some(cs))
}

fn notes_doc(notes: &Option<String>) -> (d: DocNode)
    ensures
        text_doc(d, text_or_empty(*notes)),
{
    let text = match notes {
        Some(n) => n.clone(),
        None => String::new(),
    };
    proof {
        reveal_strlit("");
        assert(""@ =~= Seq::<char>::empty());
        assert(text@ == text_or_empty(*notes));
    }
    let t = node("text", Some(text), None);
    let mut ts: Vec<DocNode> = Vec::new();
    ts.push(t);
    let p = node("paragraph", None, Some(ts));
    let mut cs: Vec<DocNode> = Vec::new();
    cs.push(p);
    node("doc", None, Some(cs))
}

fn bare_extensions() -> (x: TaskExt)
    ensures
        bare_ext(x),
{
    TaskExt {
        priority: None,
        scheduled_date: None,
        deadline: None,
        reminder_date: None,
        is_today: None,
        is_evening: None,
        is_someday: None,
        status: None,
        system_kind: None,
        is_completed: None,
        completed_at: None,
        is_cancelled: None,
        is_trashed: None,
        created_at: None,
        heading_id: None,
        project_id: None,
        area_id: None,
        tag_ids: None,
        billable: None,
        price: None,
        significance: None,
        fuel_cost: None,
        sort_order: None,
        description: None,
        checklist_items: None,
        recurrence_rule: None,
        cancelled_at: None,
        bucket: None,
        unknown: Vec::new(),
    }
}

/// The object a new task is written into.
pub fn new_object(todo: &Todo) -> (o: EngineTask)
    ensures
        fresh_for(*todo, o),
{
    let props = EngineProps {
        status: None,
        priority: None,
        priority_word: None,
        scheduled_at: None,
        due_at: None,
        reminder_at: None,
        completed_at: None,
        canceled_at: None,
        checklist: None,
        recurrence: None,
        ext: bare_extensions(),
        other: Vec::new(),
    };
    proof {
        reveal_strlit("com.kosmos.task");
    }
    EngineTask {
        id: Some(todo.id.clone()),
        type_id: Some("com.kosmos.task".to_owned()),
        type_version: Some("1.0.0".to_owned()),
        title: Some(todo.title.clone()),
        created_at: Some(todo.created_at.clone()),
        updated_at: None,
        deleted_at: None,
        content: Some(empty_paragraph_doc()),
        props,
        other: Vec::new(),
    }
}

fn end_date_of(stored: &Option<EngineRule>) -> (r: (Option<String>, Option<i64>))
    ensures
        match *stored {
            Some(s) => r.0 == s.end_date && r.1 == s.day_of_month,
            None => r.0 is None && r.1 is None,
        },
{
    match stored {
        Some(s) => (copy_opt_string(&s.end_date), s.day_of_month),
        None => (None, None),
    }
}

fn rule_numbers(t: &RecurrenceRule, stored: &Option<EngineRule>) -> (e: EngineRule)
    ensures
        rule_in_numbers(e, *t, *stored),
{
    let (end_date, day_of_month) = end_date_of(stored);
    EngineRule {
        frequency: Some(t.frequency),
        frequency_word: None,
        interval: Some(t.interval),
        recurrence_type: Some(t.recurrence_type),
        type_word: None,
        days_of_week: Some(copy_bytes(&t.days_of_week)),
        end_date,
        day_of_month,
    }
}

fn rule_words(t: &RecurrenceRule, stored: &Option<EngineRule>) -> (e: EngineRule)
    ensures
        rule_in_words(e, *t, *stored),
{
    let (end_date, day_of_month) = end_date_of(stored);
    EngineRule {
        frequency: None,
        frequency_word: Some(write_frequency(t.frequency).to_owned()),
        interval: Some(t.interval),
        recurrence_type: None,
        type_word: Some(write_recurrence_type(t.recurrence_type).to_owned()),
        days_of_week: Some(copy_bytes(&t.days_of_week)),
        end_date,
        day_of_month,
    }
}

fn stamp_if(on: bool, now: &str) -> (r: Option<String>)
    ensures
        opt_view(r) == stamp(on, now@),
{
    if on {
        Some(now.to_owned())
    } else {
        None
    }
}

fn pick<T>(c: bool, new: T, old: T) -> (r: T)
    ensures
        r == (if c { new } else { old }),
{
    if c {
        new
    } else {
        old
    }
}

fn patch_ext(x: TaskExt, before: Option<&Todo>, todo: &Todo, now: &str, stored_rule: &Option<EngineRule>, c: &Changes) -> (y: TaskExt)
    requires
        *c == differs(opt_todo(before), *todo),
    ensures
        ext_patched(x, opt_todo(before), *todo, now@, *stored_rule, y),
{
    let ghost x0 = x;
    let TaskExt {
        priority, scheduled_date, deadline, reminder_date, is_today, is_evening, is_someday, status,
        system_kind, is_completed, completed_at, is_cancelled, is_trashed, created_at, heading_id,
        project_id, area_id, tag_ids, billable, price, significance, fuel_cost, sort_order,
        description, checklist_items, recurrence_rule, cancelled_at, bucket, unknown,
    } = x;
    let new_rule = match &todo.recurrence {
        Some(t) => Some(rule_numbers(t, stored_rule)),
        None => None,
    };
    let new_bucket = if todo.status == Status::Deferred {
        Some("backlog".to_owned())
    } else {
        None
    };
    let y = TaskExt {
        priority: pick(c.priority, Some(todo.priority as u64), priority),
        scheduled_date: pick(c.scheduled_date, copy_opt_string(&todo.scheduled_date), scheduled_date),
        deadline: pick(c.deadline, copy_opt_string(&todo.deadline), deadline),
        reminder_date: pick(c.reminder_date, copy_opt_string(&todo.reminder_date), reminder_date),
        is_today: pick(c.is_today, Some(todo.is_today), is_today),
        is_evening: pick(c.is_evening, Some(todo.is_evening), is_evening),
        is_someday: pick(c.is_someday, Some(todo.is_someday), is_someday),
        status: pick(c.status, Some(local_word(todo.status).to_owned()), status),
        system_kind: pick(c.system_kind, copy_opt_string(&todo.system_kind), system_kind),
        is_completed: pick(c.is_completed, Some(todo.is_completed), is_completed),
        completed_at: pick(c.completed_at, copy_opt_string(&todo.completed_at), completed_at),
        is_cancelled: pick(c.is_cancelled, Some(todo.is_cancelled), is_cancelled),
        is_trashed: pick(c.is_trashed, Some(todo.is_trashed), is_trashed),
        created_at: pick(c.created_at, Some(todo.created_at.clone()), created_at),
        heading_id: pick(c.heading_id, copy_opt_string(&todo.heading_id), heading_id),
        project_id: pick(c.project_id, copy_opt_string(&todo.project_id), project_id),
        area_id: pick(c.area_id, copy_opt_string(&todo.area_id), area_id),
        tag_ids: pick(c.tag_ids, Some(copy_strings(&todo.tag_ids)), tag_ids),
        billable: pick(c.billable, Some(todo.billable), billable),
        price: pick(c.price, todo.price, price),
        significance: pick(c.significance, todo.significance, significance),
        fuel_cost: pick(c.fuel_cost, todo.fuel_cost, fuel_cost),
        sort_order: pick(c.sort_order, Some(todo.sort_order), sort_order),
        description: pick(c.notes, copy_opt_string(&todo.notes), description),
        checklist_items: pick(before.is_none(), Some(Vec::new()), checklist_items),
        recurrence_rule: pick(c.recurrence, new_rule, recurrence_rule),
        cancelled_at: pick(c.status, stamp_if(todo.is_cancelled, now), cancelled_at),
        bucket: pick(c.status, new_bucket, bucket),
        unknown,
    };
    proof {
        reveal_strlit("backlog");
    }
    y
}

/// The word a local status is stored under.
fn local_word(s: Status) -> (r: &'static str)
    ensures
        r@ == status_word_of(s),
{
    match s {
        Status::Inbox => "inbox",
        Status::Todo => "todo",
        Status::Started => "started",
        Status::Deferred => "deferred",
        Status::Done => "done",
        Status::Canceled => "canceled",
    }
}

/// What writing `todo` over `before` at `now` makes of `object`; a task
/// with no stored object starts from a fresh one.
pub open spec fn written(object: Option<EngineTask>, before: Option<Todo>, todo: Todo, now: Seq<char>, r: EngineTask) -> bool {
    match object {
        Some(o) => patched(o, before, todo, now, r),
        None => exists|b: EngineTask| fresh_for(todo, b) && patched(b, before, todo, now, r),
    }
}

/// Writes `todo`, which replaces `before`, into the stored `object` (a
/// fresh one where there is none) at the instant `now`.
pub fn write_at(object: Option<EngineTask>, before: Option<&Todo>, todo: &Todo, now: &str) -> (r: EngineTask)
    ensures
        written(object, opt_todo(before), *todo, now@, r),
{
    let base = match object {
        Some(o) => o,
        None => new_object(todo),
    };
    let ghost b = base;
    let c = changes(before, todo);
    let EngineTask { id, type_id, type_version, title, created_at, updated_at, deleted_at, content, props, other } = base;
    let EngineProps {
        status, priority, priority_word, scheduled_at, due_at, reminder_at, completed_at, canceled_at,
        checklist, recurrence, ext, other: props_other,
    } = props;
    let ext = patch_ext(ext, before, todo, now, &recurrence, &c);
    let new_rule = match &todo.recurrence {
        Some(t) => Some(rule_words(t, &recurrence)),
        None => None,
    };
    let props = EngineProps {
        status: pick(c.status, Some(write_status(todo).to_owned()), status),
        priority: pick(c.priority, None, priority),
        priority_word: pick(c.priority, Some(write_priority(todo.priority).to_owned()), priority_word),
        scheduled_at: pick(c.scheduled_date, copy_opt_string(&todo.scheduled_date), scheduled_at),
        due_at: pick(c.deadline, copy_opt_string(&todo.deadline), due_at),
        reminder_at: pick(c.reminder_date, copy_opt_string(&todo.reminder_date), reminder_at),
        completed_at: pick(c.completed_at, copy_opt_string(&todo.completed_at), completed_at),
        canceled_at: pick(c.status, stamp_if(todo.is_cancelled, now), canceled_at),
        checklist: pick(before.is_none(), Some(Vec::new()), checklist),
        recurrence: pick(c.recurrence, new_rule, recurrence),
        ext,
        other: props_other,
    };
    let o = EngineTask {
        id,
        type_id,
        type_version,
        title: pick(c.title, Some(todo.title.clone()), title),
        created_at,
        updated_at: Some(now.to_owned()),
        deleted_at: pick(c.is_trashed, stamp_if(todo.is_trashed, now), deleted_at),
        content: pick(c.notes, Some(notes_doc(&todo.notes)), content),
        props,
        other,
    };
    proof {
        assert(patched(b, opt_todo(before), *todo, now@, o));
    }
    o
}

/// Writes `todo`, which replaces `before`, into the stored `object` (a
/// fresh one where there is none), stamped with the current instant.
pub fn write(object: Option<EngineTask>, before: Option<&Todo>, todo: &Todo) -> (r: Result<EngineTask, String>)
    ensures
        r matches Ok(o) && exists|now: Seq<char>| rfc3339_shaped(now) && written(object, opt_todo(before), *todo, now, o),
{
    let now = utc_now_rfc3339();
    Ok(write_at(object, before, todo, now.as_str()))
}

// ---------------------------------------------------------------------------
// What a read gives back of a write
// ---------------------------------------------------------------------------

/// A task the store holds as it is: its flags agree with its status and
/// its priority is one of the four the Engine names.
pub open spec fn representable(t: Todo) -> bool {
    &&& t.is_completed == (t.status == Status::Done)
    &&& t.is_cancelled == (t.status == Status::Canceled)
    &&& t.priority <= 3
}

/// The object a write starts from is the one `before` was read from, or a
/// fresh one for a task that has no earlier version; the write leaves the
/// id and the checklist (which the Engine owns) as they were.
pub open spec fn writes_over(object: Option<EngineTask>, before: Option<Todo>, todo: Todo) -> bool {
    match object {
        Some(o) => !read_refused(o) && (before matches Some(b) && read_as(o, b) && b.id@ == todo.id@
            && b.checklist@ == todo.checklist@),
        None => before is None && todo.checklist@.len() == 0,
    }
}

proof fn lemma_status_named(s: Status)
    ensures
        status_named(status_word_of(s)) == s,
{
    reveal_strlit("inbox");
    reveal_strlit("todo");
    reveal_strlit("started");
    reveal_strlit("deferred");
    reveal_strlit("done");
    reveal_strlit("canceled");
    assert("inbox"@[0] == 'i' && "todo"@[0] == 't' && "started"@[0] == 's' && "deferred"@[0] == 'd');
    assert("done"@[1] == 'o' && "deferred"@[1] == 'e' && "canceled"@[0] == 'c');
    assert("inbox"@ != "todo"@);
}

proof fn lemma_text_doc_text(d: DocNode, s: Seq<char>)
    requires
        text_doc(d, s),
    ensures
        node_text(d) == s + seq!['\n'],
{
    reveal_strlit("doc");
    reveal_strlit("paragraph");
    reveal_strlit("heading");
    reveal_strlit("blockquote");
    reveal_strlit("listItem");
    reveal_strlit("text");
    let cs = d.content.unwrap();
    let p = cs@[0];
    let ts = p.content.unwrap();
    let x = ts@[0];
    assert(!block_kind(d.kind)) by {
        assert("doc"@.len() != "paragraph"@.len() && "doc"@.len() != "heading"@.len());
        assert("doc"@.len() != "blockquote"@.len() && "doc"@.len() != "listItem"@.len());
    }
    assert(block_kind(p.kind));
    assert(node_text(x) == s);
    assert(ts@.drop_last() =~= Seq::<DocNode>::empty());
    assert(nodes_text(ts@.drop_last()) =~= Seq::<char>::empty());
    assert(ts@.last() == x);
    assert(nodes_text(ts@) =~= s);
    assert(node_text(p) =~= s + seq!['\n']);
    assert(cs@.drop_last() =~= Seq::<DocNode>::empty());
    assert(nodes_text(cs@.drop_last()) =~= Seq::<char>::empty());
    assert(cs@.last() == p);
    assert(nodes_text(cs@) =~= s + seq!['\n']);
    assert(node_text(d) =~= s + seq!['\n']);
}

proof fn lemma_empty_notes_read(d: DocNode)
    requires
        text_doc(d, text_or_empty(None)),
    ensures
        plain_text_of(d) is None,
{
    reveal_strlit("");
    lemma_text_doc_text(d, text_or_empty(None));
    let t = seq!['\n'];
    assert(node_text(d) =~= t);
    assert(is_ws('\n'));
    assert(t.drop_first() =~= Seq::<char>::empty());
    assert(trim_start_ws(t.drop_first()) =~= Seq::<char>::empty());
    assert(trim_start_ws(t) =~= Seq::<char>::empty());
    assert(trim_ws(t).len() == 0);
}

/// The object a write starts from: the one `before` was read from, or a
/// fresh one for a new task.
pub open spec fn base_for(o: EngineTask, before: Option<Todo>, todo: Todo) -> bool {
    match before {
        Some(b) => !read_refused(o) && read_as(o, b) && b.id@ == todo.id@ && b.checklist@ == todo.checklist@,
        None => fresh_for(todo, o) && todo.checklist@.len() == 0,
    }
}

spec fn same_texts(a: Todo, b: Todo) -> bool {
    &&& a.id@ == b.id@
    &&& a.title@ == b.title@
    &&& opt_view(a.notes) == opt_view(b.notes)
    &&& a.created_at@ == b.created_at@
    &&& opt_view(a.system_kind) == opt_view(b.system_kind)
    &&& opt_view(a.heading_id) == opt_view(b.heading_id)
    &&& opt_view(a.project_id) == opt_view(b.project_id)
    &&& opt_view(a.area_id) == opt_view(b.area_id)
    &&& a.tag_ids@.map_values(|s: String| s@) == b.tag_ids@.map_values(|s: String| s@)
}

spec fn same_values(a: Todo, b: Todo) -> bool {
    &&& a.priority == b.priority
    &&& opt_view(a.scheduled_date) == opt_view(b.scheduled_date)
    &&& opt_view(a.deadline) == opt_view(b.deadline)
    &&& opt_view(a.reminder_date) == opt_view(b.reminder_date)
    &&& opt_view(a.completed_at) == opt_view(b.completed_at)
    &&& a.is_today == b.is_today
    &&& a.is_evening == b.is_evening
    &&& a.is_someday == b.is_someday
    &&& a.is_trashed == b.is_trashed
    &&& a.billable == b.billable
    &&& a.price == b.price
    &&& a.significance == b.significance
    &&& a.fuel_cost == b.fuel_cost
    &&& a.sort_order == b.sort_order
}

spec fn same_state(a: Todo, b: Todo) -> bool {
    &&& a.status == b.status
    &&& a.is_completed == b.is_completed
    &&& a.is_cancelled == b.is_cancelled
    &&& a.checklist@ == b.checklist@
    &&& same_opt_rule(a.recurrence, b.recurrence)
}

#[verifier::rlimit(50)]
proof fn lemma_reads_back_refused(o: EngineTask, before: Option<Todo>, todo: Todo, now: Seq<char>, r: EngineTask)
    requires
        base_for(o, before, todo),
        patched(o, before, todo, now, r),
    ensures
        !read_refused(r),
{
    reveal_strlit("com.kosmos.task");
}

#[verifier::rlimit(50)]
proof fn lemma_reads_back_texts(o: EngineTask, before: Option<Todo>, todo: Todo, now: Seq<char>, r: EngineTask, t: Todo)
    requires
        base_for(o, before, todo),
        patched(o, before, todo, now, r),
        read_as(r, t),
    ensures
        same_texts(t, todo),
{
    let c = differs(before, todo);
    if c.notes && todo.notes is None {
        lemma_empty_notes_read(r.content.unwrap());
    }
}

#[verifier::rlimit(50)]
proof fn lemma_reads_back_values(o: EngineTask, before: Option<Todo>, todo: Todo, now: Seq<char>, r: EngineTask, t: Todo)
    requires
        base_for(o, before, todo),
        representable(todo),
        patched(o, before, todo, now, r),
        read_as(r, t),
    ensures
        same_values(t, todo),
{
}

#[verifier::rlimit(50)]
proof fn lemma_reads_back_state(o: EngineTask, before: Option<Todo>, todo: Todo, now: Seq<char>, r: EngineTask, t: Todo)
    requires
        base_for(o, before, todo),
        representable(todo),
        patched(o, before, todo, now, r),
        read_as(r, t),
    ensures
        same_state(t, todo),
{
    reveal_strlit("backlog");
    let c = differs(before, todo);
    law_status_round_trip(todo);
    lemma_status_named(todo.status);
    if c.status {
        assert(word_of(r) == status_word(
            Some(engine_status_of(status_of(todo))),
            Some(status_word_of(todo.status)),
            todo.status == Status::Deferred,
        ));
        assert(t.status == todo.status);
    }
    assert(t.status == todo.status);
    assert(t.is_completed == todo.is_completed);
    assert(t.is_cancelled == todo.is_cancelled);
    assert(t.checklist@ == todo.checklist@);
    assert(same_opt_rule(t.recurrence, todo.recurrence));
}

proof fn lemma_patched_reads_back(o: EngineTask, before: Option<Todo>, todo: Todo, now: Seq<char>, r: EngineTask, t: Todo)
    requires
        base_for(o, before, todo),
        representable(todo),
        patched(o, before, todo, now, r),
    ensures
        !read_refused(r),
        read_as(r, t) ==> todo_eq(t, todo),
{
    lemma_reads_back_refused(o, before, todo, now, r);
    if read_as(r, t) {
        lemma_reads_back_texts(o, before, todo, now, r, t);
        lemma_reads_back_values(o, before, todo, now, r, t);
        lemma_reads_back_state(o, before, todo, now, r, t);
    }
}

/// What a read gives back of a write: a task whose flags agree with its
/// status and whose priority the Engine can name, written over the object
/// its earlier version was read from (or into a fresh object, for a new
/// task, with the checklist the Engine owns left alone), reads back as
/// itself.
pub proof fn law_read_after_write(object: Option<EngineTask>, before: Option<Todo>, todo: Todo, now: Seq<char>, r: EngineTask, t: Todo)
    requires
        writes_over(object, before, todo),
        representable(todo),
        written(object, before, todo, now, r),
    ensures
        !read_refused(r),
        read_as(r, t) ==> todo_eq(t, todo),
{
    match object {
        Some(o) => {
            lemma_patched_reads_back(o, before, todo, now, r, t);
        },
        None => {
            let b = choose|b: EngineTask| fresh_for(todo, b) && patched(b, before, todo, now, r);
            lemma_patched_reads_back(b, before, todo, now, r, t);
        },
    }
}

/// A write keeps what the task does not carry: the extension fields and
/// properties the agenda does not know, the other top-level fields, the
/// type version, the checklist of an existing object, the end conditions of
/// its repeat rule, and its rich text while the notes stay the same.
pub proof fn law_write_keeps_unknown(o: EngineTask, before: Option<Todo>, todo: Todo, now: Seq<char>, r: EngineTask)
    requires
        written(Some(o), before, todo, now, r),
    ensures
        r.props.ext.unknown == o.props.ext.unknown,
        r.props.other == o.props.other,
        r.other == o.other,
        r.type_version == o.type_version,
        r.created_at == o.created_at,
        before is Some ==> r.props.checklist == o.props.checklist
            && r.props.ext.checklist_items == o.props.ext.checklist_items,
        !differs(before, todo).notes ==> r.content == o.content,
        differs(before, todo).recurrence ==> (r.props.recurrence matches Some(e) ==> ends_kept(e, o.props.recurrence)),
{
}

/// A read determines the task: two tasks read from one object are equal.
pub proof fn lemma_read_as_unique(o: EngineTask, t: Todo, u: Todo)
    requires
        read_as(o, t),
        read_as(o, u),
    ensures
        todo_eq(t, u),
{
    assert(t.tag_ids@.map_values(|s: String| s@) == u.tag_ids@.map_values(|s: String| s@));
}

/// A task with the same contents as a read one is read from the object too.
pub proof fn lemma_read_as_same(o: EngineTask, t: Todo, u: Todo)
    requires
        read_as(o, t),
        todo_eq(t, u),
    ensures
        read_as(o, u),
{
}

/// Nothing of a task but its title differs from its earlier version.
pub open spec fn only_title_changed(before: Todo, todo: Todo) -> bool {
    let c = differs(Some(before), todo);
    &&& !c.notes && !c.priority && !c.scheduled_date && !c.deadline && !c.reminder_date
    &&& !c.is_today && !c.is_evening && !c.is_someday && !c.status_word && !c.status
    &&& !c.system_kind && !c.is_completed && !c.completed_at && !c.is_cancelled && !c.is_trashed
    &&& !c.created_at && !c.heading_id && !c.project_id && !c.area_id && !c.tag_ids
    &&& !c.recurrence && !c.billable && !c.price && !c.significance && !c.fuel_cost && !c.sort_order
}

/// Renaming a task touches its title and update stamp alone: the rich
/// text, all properties (extensions and unknown fields included), the id,
/// the type and the deletion stamp are written back exactly as stored.
pub proof fn law_rename_keeps_object(o: EngineTask, before: Todo, todo: Todo, now: Seq<char>, r: EngineTask)
    requires
        written(Some(o), Some(before), todo, now, r),
        only_title_changed(before, todo),
    ensures
        r.content == o.content,
        r.props == o.props,
        r.id == o.id && r.type_id == o.type_id && r.type_version == o.type_version,
        r.created_at == o.created_at && r.deleted_at == o.deleted_at && r.other == o.other,
        opt_view(r.title) == if before.title@ != todo.title@ { Some(todo.title@) } else { opt_view(o.title) },
        opt_view(r.updated_at) == Some(now),
{
    assert(r.props.ext == o.props.ext);
}

} // verus!
