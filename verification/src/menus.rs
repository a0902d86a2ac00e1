//! What the property dropdowns of a task, of the quick entry and of the
//! recurrence editor offer: each row's caption, whether it is the current
//! value, and the action it runs.
use vstd::prelude::*;
use crate::model::{Todo, Project, Tag, Status, status_of, task_status, task_date, opt_view,
    day_dates_cuttable};
use crate::workspace::{Agenda, MenuAction, BoardOpts, BoardView, id_pos, find_todo, find_project,
    find_tag, project_pos, tag_pos};
use crate::lists::{SortKey, GroupKey};
use crate::startup::{boards_set, stored_board};
use crate::rows::{marked, day_of};
use crate::order::usize_seq_view;
use crate::dates::{CivilDate, day_number, valid_date, key_text, key_of, add_days, chrono_add_days, decimal,
    push_decimal, local_today, today_key, MIN_YEAR, MAX_YEAR};
use crate::text::{push_str, str_equal, str_less, text_lt};
use crate::format::{fmt_day_month, fmt_day_month_text, describe_recurrence, describe_text,
    push_signed_decimal, signed_decimal};

verus! {

#[derive(Clone, Copy, PartialEq, Eq, Debug, Structural)]
pub enum DropKind {
    Status,
    Priority,
    Project,
    Tags,
    Significance,
    Billable,
    Date,
    QeProject,
    QeDate,
    RecurFreq,
    RecurType,
}

/// One row of a dropdown.
pub struct DropRow {
    pub index: usize,
    pub label: String,
    pub checked: bool,
    pub action: MenuAction,
}

/// The actions dropdown rows run, with their texts as sequences.
pub enum ActionView {
    SetStatus(Seq<char>, Status),
    SetPriority(Seq<char>, u8),
    SetProject(Seq<char>, Option<Seq<char>>),
    AddTag(Seq<char>, Seq<char>),
    SetSignificance(Seq<char>, Option<u8>),
    SetBillable(Seq<char>, bool),
    SetDate(Seq<char>, Option<Seq<char>>),
    QeSetProject(Option<Seq<char>>),
    QeSetDate(Option<Seq<char>>),
    RecurSetFreq(u8),
    RecurSetType(u8),
    RestoreTodo(Seq<char>),
    TrashTodo(Seq<char>),
    MoveToToday(Seq<char>),
    CompleteTodo(Seq<char>),
    Noop,
    Other,
}

pub open spec fn action_view(a: MenuAction) -> ActionView {
    match a {
        MenuAction::SetStatus(t, s) => ActionView::SetStatus(t@, s),
        MenuAction::SetPriority(t, p) => ActionView::SetPriority(t@, p),
        MenuAction::SetProject(t, p) => ActionView::SetProject(t@, opt_view(p)),
        MenuAction::AddTag(t, g) => ActionView::AddTag(t@, g@),
        MenuAction::SetSignificance(t, s) => ActionView::SetSignificance(t@, s),
        MenuAction::SetBillable(t, b) => ActionView::SetBillable(t@, b),
        MenuAction::SetDate(t, d) => ActionView::SetDate(t@, opt_view(d)),
        MenuAction::QeSetProject(p) => ActionView::QeSetProject(opt_view(p)),
        MenuAction::QeSetDate(d) => ActionView::QeSetDate(opt_view(d)),
        MenuAction::RecurSetFreq(v) => ActionView::RecurSetFreq(v),
        MenuAction::RecurSetType(v) => ActionView::RecurSetType(v),
        MenuAction::RestoreTodo(t) => ActionView::RestoreTodo(t@),
        MenuAction::TrashTodo(t) => ActionView::TrashTodo(t@),
        MenuAction::MoveToToday(t) => ActionView::MoveToToday(t@),
        MenuAction::CompleteTodo(t) => ActionView::CompleteTodo(t@),
        MenuAction::Noop => ActionView::Noop,
        _ => ActionView::Other,
    }
}

/// What a dropdown row shows and does.
pub struct DropView {
    pub index: int,
    pub label: Seq<char>,
    pub checked: bool,
    pub action: ActionView,
}

pub open spec fn dv(index: int, label: Seq<char>, checked: bool, action: ActionView) -> DropView {
    DropView { index, label, checked, action }
}

pub open spec fn drop_view(r: DropRow) -> DropView {
    dv(r.index as int, r.label@, r.checked, action_view(r.action))
}

pub open spec fn drop_views(rs: Seq<DropRow>) -> Seq<DropView> {
    rs.map_values(|r: DropRow| drop_view(r))
}

fn owned(s: &str) -> (r: String)
    ensures
        r@ == s@,
{
    s.to_owned()
}

fn row(index: usize, label: &str, checked: bool, action: MenuAction) -> (r: DropRow)
    ensures
        r.index == index,
        r.label@ == label@,
        r.checked == checked,
        r.action == action,
{
    DropRow { index, label: owned(label), checked, action }
}

fn push_row(out: &mut Vec<DropRow>, r: DropRow)
    ensures
        drop_views(final(out)@) == drop_views(old(out)@).push(drop_view(r)),
{
    let ghost before = out@;
    out.push(r);
    proof {
        assert(drop_views(out@) =~= drop_views(before).push(drop_view(r)));
    }
}

// ---------------------------------------------------------------------------
// The task the dropdown belongs to
// ---------------------------------------------------------------------------

/// The task a dropdown edits: the first with its id.
pub open spec fn todo_of(a: Agenda, tid: Seq<char>) -> Option<Todo> {
    match id_pos(a.records.todos@, tid) {
        Some(i) => Some(a.records.todos@[i]),
        None => None,
    }
}

/// The id a dropdown edits: its task's, or the empty text.
pub open spec fn tid_of(todo_id: Option<String>) -> Seq<char> {
    match todo_id {
        Some(s) => s@,
        None => ""@,
    }
}

fn todo_at(a: &Agenda, tid: &str) -> (r: Option<usize>)
    ensures
        match r {
            Some(i) => i < a.records.todos@.len() && todo_of(*a, tid@) == Some(a.records.todos@[i as int]),
            None => todo_of(*a, tid@) is None,
        },
{
    let r = find_todo(&a.records.todos, tid);
    proof {
        crate::workspace::lemma_id_pos_from(a.records.todos@, tid@, 0);
    }
    r
}

// ---------------------------------------------------------------------------
// Fixed tables
// ---------------------------------------------------------------------------

pub open spec fn status_at(i: int) -> Status {
    if i == 0 {
        Status::Inbox
    } else if i == 1 {
        Status::Todo
    } else if i == 2 {
        Status::Started
    } else if i == 3 {
        Status::Deferred
    } else if i == 4 {
        Status::Done
    } else {
        Status::Canceled
    }
}

pub open spec fn status_label(s: Status) -> Seq<char> {
    match s {
        Status::Inbox => "Входящие"@,
        Status::Todo => "Сделать"@,
        Status::Started => "В работе"@,
        Status::Deferred => "Потом"@,
        Status::Done => "Готово"@,
        Status::Canceled => "Отменено"@,
    }
}

/// The caption of a status.
pub fn status_caption(s: Status) -> (r: &'static str)
    ensures
        r@ == status_label(s),
{
    match s {
        Status::Inbox => "Входящие",
        Status::Todo => "Сделать",
        Status::Started => "В работе",
        Status::Deferred => "Потом",
        Status::Done => "Готово",
        Status::Canceled => "Отменено",
    }
}

pub open spec fn priority_label(p: int) -> Seq<char> {
    if p == 0 {
        "Без приоритета"@
    } else if p == 1 {
        "Низкий"@
    } else if p == 2 {
        "Средний"@
    } else {
        "Высокий"@
    }
}

/// The caption of a priority (0 ..= 3).
pub fn priority_caption(p: u8) -> (r: &'static str)
    requires
        p <= 3,
    ensures
        r@ == priority_label(p as int),
{
    if p == 0 {
        "Без приоритета"
    } else if p == 1 {
        "Низкий"
    } else if p == 2 {
        "Средний"
    } else {
        "Высокий"
    }
}

pub open spec fn cur_status(a: Agenda, tid: Seq<char>) -> Option<Status> {
    match todo_of(a, tid) {
        Some(t) => Some(status_of(t)),
        None => None,
    }
}

pub open spec fn status_rows(a: Agenda, tid: Seq<char>) -> Seq<DropView> {
    Seq::new(6, |i: int| dv(i, status_label(status_at(i)), cur_status(a, tid) == Some(status_at(i)), ActionView::SetStatus(tid, status_at(i))))
}

pub open spec fn cur_priority(a: Agenda, tid: Seq<char>) -> int {
    match todo_of(a, tid) {
        Some(t) => t.priority as int,
        None => 0,
    }
}

pub open spec fn priority_rows(a: Agenda, tid: Seq<char>) -> Seq<DropView> {
    Seq::new(4, |i: int| dv(i, priority_label(i), cur_priority(a, tid) == i, ActionView::SetPriority(tid, i as u8)))
}

pub open spec fn cur_billable(a: Agenda, tid: Seq<char>) -> bool {
    match todo_of(a, tid) {
        Some(t) => t.billable,
        None => false,
    }
}

pub open spec fn billable_rows(a: Agenda, tid: Seq<char>) -> Seq<DropView> {
    seq![
        dv(0, "Без оплаты"@, !cur_billable(a, tid), ActionView::SetBillable(tid, false)),
        dv(1, "Оплачиваемая"@, cur_billable(a, tid), ActionView::SetBillable(tid, true)),
    ]
}

pub open spec fn freq_label(v: int) -> Seq<char> {
    if v == 0 {
        "День"@
    } else if v == 1 {
        "Неделя"@
    } else if v == 2 {
        "Месяц"@
    } else {
        "Год"@
    }
}

pub open spec fn freq_rows(a: Agenda) -> Seq<DropView> {
    Seq::new(4, |i: int| dv(i, freq_label(i), a.entry.recur_freq == i, ActionView::RecurSetFreq(i as u8)))
}

pub open spec fn recur_type_rows(a: Agenda) -> Seq<DropView> {
    seq![
        dv(0, "по расписанию"@, a.entry.recur_type == 0, ActionView::RecurSetType(0)),
        dv(1, "после выполнения"@, a.entry.recur_type == 1, ActionView::RecurSetType(1)),
    ]
}

fn status_dropdown(a: &Agenda, tid: &str) -> (out: Vec<DropRow>)
    ensures
        drop_views(out@) == status_rows(*a, tid@),
{
    let cur = match todo_at(a, tid) {
        Some(i) => Some(task_status(&a.records.todos[i])),
        None => None,
    };
    let mut out: Vec<DropRow> = Vec::new();
    let mut i: usize = 0;
    while i < 6
        invariant
            i <= 6,
            cur == cur_status(*a, tid@),
            drop_views(out@) == status_rows(*a, tid@).take(i as int),
        decreases 6 - i,
    {
        let s = if i == 0 {
            Status::Inbox
        } else if i == 1 {
            Status::Todo
        } else if i == 2 {
            Status::Started
        } else if i == 3 {
            Status::Deferred
        } else if i == 4 {
            Status::Done
        } else {
            Status::Canceled
        };
        let checked = match cur {
            Some(c) => c == s,
            None => false,
        };
        push_row(&mut out, row(i, status_caption(s), checked, MenuAction::SetStatus(owned(tid), s)));
        proof {
            assert(status_rows(*a, tid@).take(i + 1) =~= status_rows(*a, tid@).take(i as int).push(status_rows(*a, tid@)[i as int]));
        }
        i = i + 1;
    }
    proof {
        assert(status_rows(*a, tid@).take(6) =~= status_rows(*a, tid@));
    }
    out
}

fn priority_dropdown(a: &Agenda, tid: &str) -> (out: Vec<DropRow>)
    ensures
        drop_views(out@) == priority_rows(*a, tid@),
{
    let cur: u8 = match todo_at(a, tid) {
        Some(i) => a.records.todos[i].priority,
        None => 0,
    };
    let mut out: Vec<DropRow> = Vec::new();
    let mut p: u8 = 0;
    while p < 4
        invariant
            p <= 4,
            cur as int == cur_priority(*a, tid@),
            drop_views(out@) == priority_rows(*a, tid@).take(p as int),
        decreases 4 - p,
    {
        push_row(&mut out, row(p as usize, priority_caption(p), cur == p, MenuAction::SetPriority(owned(tid), p)));
        proof {
            assert(priority_rows(*a, tid@).take(p + 1) =~= priority_rows(*a, tid@).take(p as int).push(priority_rows(*a, tid@)[p as int]));
        }
        p = p + 1;
    }
    proof {
        assert(priority_rows(*a, tid@).take(4) =~= priority_rows(*a, tid@));
    }
    out
}

fn billable_dropdown(a: &Agenda, tid: &str) -> (out: Vec<DropRow>)
    ensures
        drop_views(out@) == billable_rows(*a, tid@),
{
    let cur = match todo_at(a, tid) {
        Some(i) => a.records.todos[i].billable,
        None => false,
    };
    let mut out: Vec<DropRow> = Vec::new();
    push_row(&mut out, row(0, "Без оплаты", !cur, MenuAction::SetBillable(owned(tid), false)));
    push_row(&mut out, row(1, "Оплачиваемая", cur, MenuAction::SetBillable(owned(tid), true)));
    proof {
        assert(drop_views(out@) =~= billable_rows(*a, tid@));
    }
    out
}

fn freq_dropdown(a: &Agenda) -> (out: Vec<DropRow>)
    ensures
        drop_views(out@) == freq_rows(*a),
{
    let mut out: Vec<DropRow> = Vec::new();
    let mut v: u8 = 0;
    while v < 4
        invariant
            v <= 4,
            drop_views(out@) == freq_rows(*a).take(v as int),
        decreases 4 - v,
    {
        let label = if v == 0 {
            "День"
        } else if v == 1 {
            "Неделя"
        } else if v == 2 {
            "Месяц"
        } else {
            "Год"
        };
        push_row(&mut out, row(v as usize, label, a.entry.recur_freq == v, MenuAction::RecurSetFreq(v)));
        proof {
            assert(freq_rows(*a).take(v + 1) =~= freq_rows(*a).take(v as int).push(freq_rows(*a)[v as int]));
        }
        v = v + 1;
    }
    proof {
        assert(freq_rows(*a).take(4) =~= freq_rows(*a));
    }
    out
}

fn recur_type_dropdown(a: &Agenda) -> (out: Vec<DropRow>)
    ensures
        drop_views(out@) == recur_type_rows(*a),
{
    let mut out: Vec<DropRow> = Vec::new();
    push_row(&mut out, row(0, "по расписанию", a.entry.recur_type == 0, MenuAction::RecurSetType(0)));
    push_row(&mut out, row(1, "после выполнения", a.entry.recur_type == 1, MenuAction::RecurSetType(1)));
    proof {
        assert(drop_views(out@) =~= recur_type_rows(*a));
    }
    out
}

// ---------------------------------------------------------------------------
// Projects, tags, significance
// ---------------------------------------------------------------------------

pub open spec fn cur_project(a: Agenda, tid: Seq<char>) -> Option<Seq<char>> {
    match todo_of(a, tid) {
        Some(t) => opt_view(t.project_id),
        None => None,
    }
}

/// The action of a project row: the task's project, or the quick entry's.
pub open spec fn project_action(qe: bool, tid: Seq<char>, p: Option<Seq<char>>) -> ActionView {
    if qe {
        ActionView::QeSetProject(p)
    } else {
        ActionView::SetProject(tid, p)
    }
}

pub open spec fn chosen_project(a: Agenda, tid: Seq<char>, qe: bool) -> Option<Seq<char>> {
    if qe {
        opt_view(a.entry.project)
    } else {
        cur_project(a, tid)
    }
}

pub open spec fn open_flags(ps: Seq<Project>) -> Seq<bool> {
    Seq::new(ps.len(), |k: int| ps[k].status != 2)
}

/// The row of the project at position `k`.
pub open spec fn project_row(a: Agenda, tid: Seq<char>, qe: bool, k: int) -> DropView {
    let p = a.records.projects@[k];
    dv(k + 1, p.title@, chosen_project(a, tid, qe) == Some(p.id@), project_action(qe, tid, Some(p.id@)))
}

/// "No project" (or "Inbox" for the quick entry), then each project that is
/// not completed, numbered by its place among all projects.
pub open spec fn project_rows(a: Agenda, tid: Seq<char>, qe: bool) -> Seq<DropView> {
    let open = marked(open_flags(a.records.projects@));
    seq![dv(0, if qe { "Входящие"@ } else { "Без проекта"@ }, chosen_project(a, tid, qe) is None, project_action(qe, tid, None))]
        + Seq::new(open.len(), |j: int| project_row(a, tid, qe, open[j]))
}

fn same_opt(a: &Option<String>, b: &Option<String>) -> (r: bool)
    ensures
        r == (opt_view(*a) == opt_view(*b)),
{
    match (a, b) {
        (Some(x), Some(y)) => str_equal(x.as_str(), y.as_str()),
        (None, None) => true,
        _ => false,
    }
}

fn project_dropdown(a: &Agenda, tid: &str, qe: bool) -> (out: Vec<DropRow>)
    ensures
        drop_views(out@) == project_rows(*a, tid@, qe),
{
    let cur: Option<String> = if qe {
        match &a.entry.project {
            Some(p) => Some(p.clone()),
            None => None,
        }
    } else {
        match todo_at(a, tid) {
            Some(i) => match &a.records.todos[i].project_id {
                Some(p) => Some(p.clone()),
                None => None,
            },
            None => None,
        }
    };
    let ghost ps = a.records.projects@;
    let ghost flags = open_flags(ps);
    let mut out: Vec<DropRow> = Vec::new();
    let first = if qe {
        "Входящие"
    } else {
        "Без проекта"
    };
    let none_action = if qe {
        MenuAction::QeSetProject(None)
    } else {
        MenuAction::SetProject(owned(tid), None)
    };
    push_row(&mut out, row(0, first, cur.is_none(), none_action));
    let ghost head = drop_views(out@);
    proof {
        assert(head =~= seq![dv(0, if qe { "Входящие"@ } else { "Без проекта"@ }, chosen_project(*a, tid@, qe) is None, project_action(qe, tid@, None))]);
        assert(flags.take(0) =~= Seq::<bool>::empty());
        assert(drop_views(out@) =~= head + Seq::new(marked(flags.take(0)).len(), |j: int| project_row(*a, tid@, qe, marked(flags.take(0))[j])));
    }
    let mut k: usize = 0;
    while k < a.records.projects.len()
        invariant
            k <= ps.len(),
            ps == a.records.projects@,
            flags == open_flags(ps),
            opt_view(cur) == chosen_project(*a, tid@, qe),
            drop_views(out@) == head + Seq::new(marked(flags.take(k as int)).len(), |j: int| project_row(*a, tid@, qe, marked(flags.take(k as int))[j])),
        decreases ps.len() - k,
    {
        let ghost open_k = marked(flags.take(k as int));
        proof {
            assert(flags.take(k + 1).drop_last() =~= flags.take(k as int));
        }
        let p = &a.records.projects[k];
        if p.status != 2 {
            let id = p.id.clone();
            let checked = match &cur {
                Some(c) => str_equal(c.as_str(), id.as_str()),
                None => false,
            };
            let action = if qe {
                MenuAction::QeSetProject(Some(id))
            } else {
                MenuAction::SetProject(owned(tid), Some(id))
            };
            let ghost before = drop_views(out@);
            push_row(&mut out, DropRow { index: k + 1, label: p.title.clone(), checked, action });
            proof {
                let open_k1 = marked(flags.take(k + 1));
                assert(open_k1 == open_k.push(k as int));
                assert(Seq::new(open_k1.len(), |j: int| project_row(*a, tid@, qe, open_k1[j]))
                    =~= Seq::new(open_k.len(), |j: int| project_row(*a, tid@, qe, open_k[j])).push(project_row(*a, tid@, qe, k as int)));
                assert(drop_views(out@) =~= head + Seq::new(open_k1.len(), |j: int| project_row(*a, tid@, qe, open_k1[j])));
            }
        } else {
            proof {
                assert(marked(flags.take(k + 1)) == open_k);
            }
        }
        k = k + 1;
    }
    proof {
        assert(flags.take(ps.len() as int) =~= flags);
    }
    out
}

pub open spec fn texts(v: Seq<String>) -> Seq<Seq<char>> {
    v.map_values(|s: String| s@)
}

pub open spec fn cur_tags(a: Agenda, tid: Seq<char>) -> Seq<Seq<char>> {
    match todo_of(a, tid) {
        Some(t) => texts(t.tag_ids@),
        None => seq![],
    }
}

/// Every tag, checked where the task has it.
pub open spec fn tag_rows(a: Agenda, tid: Seq<char>) -> Seq<DropView> {
    let tags = a.records.tags@;
    Seq::new(tags.len(), |i: int| dv(i, tags[i].title@, cur_tags(a, tid).contains(tags[i].id@), ActionView::AddTag(tid, tags[i].id@)))
}

fn contains_text(v: &Vec<String>, s: &str) -> (r: bool)
    ensures
        r == texts(v@).contains(s@),
{
    let mut j: usize = 0;
    while j < v.len()
        invariant
            j <= v@.len(),
            forall|x: int| 0 <= x < j ==> texts(v@)[x] != s@,
        decreases v@.len() - j,
    {
        if str_equal(v[j].as_str(), s) {
            proof {
                assert(texts(v@)[j as int] == s@);
            }
            return true;
        }
        j = j + 1;
    }
    false
}

fn tag_dropdown(a: &Agenda, tid: &str) -> (out: Vec<DropRow>)
    ensures
        drop_views(out@) == tag_rows(*a, tid@),
{
    let found = todo_at(a, tid);
    let mut out: Vec<DropRow> = Vec::new();
    let mut i: usize = 0;
    while i < a.records.tags.len()
        invariant
            i <= a.records.tags@.len(),
            match found {
                Some(x) => x < a.records.todos@.len() && todo_of(*a, tid@) == Some(a.records.todos@[x as int]),
                None => todo_of(*a, tid@) is None,
            },
            drop_views(out@) == tag_rows(*a, tid@).take(i as int),
        decreases a.records.tags@.len() - i,
    {
        let tag = &a.records.tags[i];
        let checked = match found {
            Some(x) => contains_text(&a.records.todos[x].tag_ids, tag.id.as_str()),
            None => false,
        };
        proof {
            if found is None {
                assert(cur_tags(*a, tid@) =~= Seq::<Seq<char>>::empty());
            }
        }
        push_row(&mut out, DropRow { index: i, label: tag.title.clone(), checked, action: MenuAction::AddTag(owned(tid), tag.id.clone()) });
        proof {
            assert(tag_rows(*a, tid@).take(i + 1) =~= tag_rows(*a, tid@).take(i as int).push(tag_rows(*a, tid@)[i as int]));
        }
        i = i + 1;
    }
    proof {
        assert(tag_rows(*a, tid@).take(a.records.tags@.len() as int) =~= tag_rows(*a, tid@));
    }
    out
}

pub open spec fn cur_significance(a: Agenda, tid: Seq<char>) -> Option<u8> {
    match todo_of(a, tid) {
        Some(t) => t.significance,
        None => None,
    }
}

/// "Not rated", then the marks 1/10 to 10/10.
pub open spec fn significance_rows(a: Agenda, tid: Seq<char>) -> Seq<DropView> {
    seq![dv(0, "Не оценено"@, cur_significance(a, tid) is None, ActionView::SetSignificance(tid, None))]
        + Seq::new(10, |i: int| dv(i + 1, decimal((i + 1) as nat) + "/10"@, cur_significance(a, tid) == Some((i + 1) as u8), ActionView::SetSignificance(tid, Some((i + 1) as u8))))
}

fn significance_dropdown(a: &Agenda, tid: &str) -> (out: Vec<DropRow>)
    ensures
        drop_views(out@) == significance_rows(*a, tid@),
{
    let cur: Option<u8> = match todo_at(a, tid) {
        Some(i) => a.records.todos[i].significance,
        None => None,
    };
    let ghost rows = significance_rows(*a, tid@);
    let mut out: Vec<DropRow> = Vec::new();
    push_row(&mut out, row(0, "Не оценено", cur.is_none(), MenuAction::SetSignificance(owned(tid), None)));
    let mut v: u8 = 1;
    while v <= 10
        invariant
            1 <= v <= 11,
            cur == cur_significance(*a, tid@),
            rows == significance_rows(*a, tid@),
            drop_views(out@) == rows.take(v as int),
        decreases 11 - v,
    {
        let mut label = String::new();
        push_decimal(&mut label, v as u64);
        push_str(&mut label, "/10");
        proof {
            assert(label@ =~= decimal(v as nat) + "/10"@);
        }
        let checked = match cur {
            Some(c) => c == v,
            None => false,
        };
        push_row(&mut out, DropRow { index: v as usize, label, checked, action: MenuAction::SetSignificance(owned(tid), Some(v)) });
        proof {
            assert(rows[v as int] == dv(v as int, decimal(v as nat) + "/10"@, cur_significance(*a, tid@) == Some(v), ActionView::SetSignificance(tid@, Some(v))));
            assert(rows.take(v + 1) =~= rows.take(v as int).push(rows[v as int]));
        }
        v = v + 1;
    }
    proof {
        assert(rows.take(11) =~= rows);
    }
    out
}

// ---------------------------------------------------------------------------
// Dates
// ---------------------------------------------------------------------------

/// The key of the day `n` days after `today`.
pub open spec fn near_key(today: CivilDate, n: int) -> Seq<char> {
    match chrono_add_days(today, n) {
        Some(d) => key_text(d),
        None => seq![],
    }
}

/// Today, tomorrow, in a week, or no day.
pub open spec fn date_choice(today: CivilDate, i: int) -> Option<Seq<char>> {
    if i == 0 {
        Some(key_text(today))
    } else if i == 1 {
        Some(near_key(today, 1))
    } else if i == 2 {
        Some(near_key(today, 7))
    } else {
        None
    }
}

pub open spec fn date_label(i: int) -> Seq<char> {
    if i == 0 {
        "Сегодня"@
    } else if i == 1 {
        "Завтра"@
    } else if i == 2 {
        "Через неделю"@
    } else {
        "Без даты"@
    }
}

pub open spec fn cur_day(a: Agenda, tid: Seq<char>) -> Option<Seq<char>> {
    match todo_of(a, tid) {
        Some(t) => day_of(t),
        None => None,
    }
}

pub open spec fn date_action(qe: bool, tid: Seq<char>, d: Option<Seq<char>>) -> ActionView {
    if qe {
        ActionView::QeSetDate(d)
    } else {
        ActionView::SetDate(tid, d)
    }
}

/// The four day choices, checked where the task's day is that choice.
pub open spec fn date_rows(a: Agenda, tid: Seq<char>, qe: bool, today: CivilDate) -> Seq<DropView> {
    Seq::new(4, |i: int| dv(i, date_label(i), cur_day(a, tid) == date_choice(today, i), date_action(qe, tid, date_choice(today, i))))
}

/// `k` is the key of the day `n` days after `today`.
pub open spec fn day_after_key(k: Seq<char>, today: CivilDate, n: int) -> bool {
    exists|d: CivilDate| valid_date(d) && k == key_text(d) && day_number(d) == day_number(today) + n
}

/// The day a date row sets (empty for none).
pub open spec fn action_day(a: ActionView) -> Seq<char> {
    match a {
        ActionView::SetDate(_, Some(k)) => k,
        ActionView::QeSetDate(Some(k)) => k,
        _ => seq![],
    }
}

fn later_key(today: CivilDate, n: i64) -> (r: String)
    requires
        valid_date(today),
        MIN_YEAR < today.year < MAX_YEAR,
        0 <= n <= 7,
    ensures
        r@ == near_key(today, n as int),
        day_after_key(r@, today, n as int),
{
    match add_days(today, n) {
        Some(d) => key_of(d),
        None => String::new(),
    }
}

fn date_dropdown(a: &Agenda, tid: &str, qe: bool, today: CivilDate) -> (out: Vec<DropRow>)
    requires
        valid_date(today),
        MIN_YEAR < today.year < MAX_YEAR,
        forall|i: int| 0 <= i < a.records.todos@.len() ==> #[trigger] day_dates_cuttable(a.records.todos@[i]),
    ensures
        drop_views(out@) == date_rows(*a, tid@, qe, today),
        day_after_key(action_day(drop_views(out@)[1].action), today, 1),
        day_after_key(action_day(drop_views(out@)[2].action), today, 7),
{
    let cur: Option<String> = match todo_at(a, tid) {
        Some(i) => {
            proof {
                assert(day_dates_cuttable(a.records.todos@[i as int]));
            }
            task_date(&a.records.todos[i]).0
        },
        None => None,
    };
    let ghost rows = date_rows(*a, tid@, qe, today);
    let mut out: Vec<DropRow> = Vec::new();
    let mut i: usize = 0;
    while i < 4
        invariant
            i <= 4,
            valid_date(today),
            MIN_YEAR < today.year < MAX_YEAR,
            opt_view(cur) == cur_day(*a, tid@),
            rows == date_rows(*a, tid@, qe, today),
            drop_views(out@) == rows.take(i as int),
            i > 1 ==> day_after_key(action_day(drop_views(out@)[1].action), today, 1),
            i > 2 ==> day_after_key(action_day(drop_views(out@)[2].action), today, 7),
        decreases 4 - i,
    {
        let ghost before = out@;
        let (choice, label): (Option<String>, &str) = if i == 0 {
            (Some(key_of(today)), "Сегодня")
        } else if i == 1 {
            (Some(later_key(today, 1)), "Завтра")
        } else if i == 2 {
            (Some(later_key(today, 7)), "Через неделю")
        } else {
            (None, "Без даты")
        };
        let checked = same_opt(&cur, &choice);
        let action = if qe {
            MenuAction::QeSetDate(choice)
        } else {
            MenuAction::SetDate(owned(tid), choice)
        };
        let ghost gchoice = choice;
        push_row(&mut out, row(i, label, checked, action));
        proof {
            assert(rows.take(i + 1) =~= rows.take(i as int).push(rows[i as int]));
            assert(forall|j: int| 0 <= j < i ==> drop_views(out@)[j] == drop_views(before)[j]);
        }
        i = i + 1;
    }
    proof {
        assert(rows.take(4) =~= rows);
    }
    out
}

// ---------------------------------------------------------------------------
// The dropdown
// ---------------------------------------------------------------------------

pub open spec fn is_date_kind(kind: DropKind) -> bool {
    kind == DropKind::Date || kind == DropKind::QeDate
}

/// The rows a dropdown of the given kind shows for the task `tid`.
pub open spec fn dropdown_view(a: Agenda, kind: DropKind, tid: Seq<char>, today: CivilDate) -> Seq<DropView> {
    match kind {
        DropKind::Status => status_rows(a, tid),
        DropKind::Priority => priority_rows(a, tid),
        DropKind::Project => project_rows(a, tid, false),
        DropKind::Tags => tag_rows(a, tid),
        DropKind::Significance => significance_rows(a, tid),
        DropKind::Billable => billable_rows(a, tid),
        DropKind::Date => date_rows(a, tid, false, today),
        DropKind::QeDate => date_rows(a, tid, true, today),
        DropKind::QeProject => project_rows(a, tid, true),
        DropKind::RecurFreq => freq_rows(a),
        DropKind::RecurType => recur_type_rows(a),
    }
}

/// A day dropdown needs the tasks' days readable, and today away from the
/// ends of chrono's calendar, where the day arithmetic gives out.
pub open spec fn dropdown_ready(a: Agenda, kind: DropKind, today: CivilDate) -> bool {
    is_date_kind(kind) ==> {
        &&& MIN_YEAR < today.year < MAX_YEAR
        &&& forall|i: int| 0 <= i < a.records.todos@.len() ==> #[trigger] day_dates_cuttable(a.records.todos@[i])
    }
}

impl Agenda {
    /// The rows of an open dropdown on the given day; `todo_id` is the task
    /// it belongs to (none: the empty id).
    pub fn dropdown_rows_on(&self, kind: DropKind, todo_id: &Option<String>, today: CivilDate) -> (out: Vec<DropRow>)
        requires
            valid_date(today),
            dropdown_ready(*self, kind, today),
        ensures
            drop_views(out@) == dropdown_view(*self, kind, tid_of(*todo_id), today),
            is_date_kind(kind) ==> day_after_key(action_day(drop_views(out@)[1].action), today, 1)
                && day_after_key(action_day(drop_views(out@)[2].action), today, 7),
    {
        let tid: &str = match todo_id {
            Some(s) => s.as_str(),
            None => "",
        };
        match kind {
            DropKind::Status => status_dropdown(self, tid),
            DropKind::Priority => priority_dropdown(self, tid),
            DropKind::Project => project_dropdown(self, tid, false),
            DropKind::Tags => tag_dropdown(self, tid),
            DropKind::Significance => significance_dropdown(self, tid),
            DropKind::Billable => billable_dropdown(self, tid),
            DropKind::Date => date_dropdown(self, tid, false, today),
            DropKind::QeDate => date_dropdown(self, tid, true, today),
            DropKind::QeProject => project_dropdown(self, tid, true),
            DropKind::RecurFreq => freq_dropdown(self),
            DropKind::RecurType => recur_type_dropdown(self),
        }
    }

    /// The rows of an open dropdown today; `None` for a day dropdown when
    /// today is at an end of chrono's calendar.
    pub fn dropdown_rows(&self, kind: DropKind, todo_id: &Option<String>) -> (out: Option<Vec<DropRow>>)
        requires
            is_date_kind(kind) ==> forall|i: int| 0 <= i < self.records.todos@.len() ==> #[trigger] day_dates_cuttable(self.records.todos@[i]),
        ensures
            exists|t: CivilDate| valid_date(t) && match out {
                Some(v) => drop_views(v@) == dropdown_view(*self, kind, tid_of(*todo_id), t),
                None => is_date_kind(kind) && !(MIN_YEAR < t.year < MAX_YEAR),
            },
    {
        let today = local_today();
        let date_kind = kind == DropKind::Date || kind == DropKind::QeDate;
        if date_kind && !(MIN_YEAR < today.year && today.year < MAX_YEAR) {
            return None;
        }
        Some(self.dropdown_rows_on(kind, todo_id, today))
    }
}

// ---------------------------------------------------------------------------
// Property chips of the task page
// ---------------------------------------------------------------------------

/// The captions of a task's property chips.
pub struct TaskChips {
    pub status: String,
    pub priority: String,
    /// The task's day is past and it is neither done nor canceled.
    pub overdue: bool,
    /// The task's day, which the date chip can remove.
    pub date: Option<String>,
    pub date_label: String,
    pub project: String,
    /// The task's tags that exist, by position among the tags.
    pub tags: Vec<usize>,
    pub recurrence: String,
    pub significance: String,
    pub billable: String,
    pub fuel: Option<String>,
}

pub open spec fn project_caption(ps: Seq<Project>, pid: Option<String>) -> Seq<char> {
    match pid {
        Some(p) => match project_pos(ps, p@) {
            Some(k) => ps[k].title@,
            None => "Без проекта"@,
        },
        None => "Без проекта"@,
    }
}

/// The positions of the tags with the given ids (the first tag for an id),
/// skipping ids no tag has.
pub open spec fn tag_pills(tags: Seq<Tag>, ids: Seq<Seq<char>>) -> Seq<int>
    decreases ids.len(),
{
    if ids.len() == 0 {
        seq![]
    } else {
        let p = tag_pills(tags, ids.drop_last());
        match tag_pos(tags, ids.last()) {
            Some(i) => p.push(i),
            None => p,
        }
    }
}

pub open spec fn task_overdue(t: Todo, today: Seq<char>) -> bool {
    &&& match day_of(t) {
        Some(d) => text_lt(d, today),
        None => false,
    }
    &&& status_of(t) != Status::Done
    &&& status_of(t) != Status::Canceled
}

pub open spec fn date_caption(t: Todo) -> Seq<char> {
    match day_of(t) {
        Some(d) => fmt_day_month_text(d),
        None => "Срок"@,
    }
}

pub open spec fn recurrence_caption(t: Todo) -> Seq<char> {
    if t.recurrence is Some {
        describe_text(t.recurrence)
    } else {
        "Повторение"@
    }
}

pub open spec fn significance_caption(t: Todo) -> Seq<char> {
    match t.significance {
        Some(v) => decimal(v as nat) + "/10"@,
        None => "Не оценено"@,
    }
}

pub open spec fn billable_caption(t: Todo) -> Seq<char> {
    if t.billable {
        "Оплачиваемая $"@ + signed_decimal(
            match t.price {
                Some(p) => p as int,
                None => 0,
            },
        )
    } else {
        "Без оплаты"@
    }
}

pub open spec fn fuel_caption(t: Todo) -> Option<Seq<char>> {
    match t.fuel_cost {
        Some(f) => Some("~"@ + decimal(f as nat) + "%"@),
        None => None,
    }
}

/// `c` captions the chips of `t` on `today`.
pub open spec fn chips_of(c: TaskChips, t: Todo, ps: Seq<Project>, tags: Seq<Tag>, today: Seq<char>) -> bool {
    &&& c.status@ == status_label(status_of(t))
    &&& c.priority@ == priority_label(t.priority as int)
    &&& c.overdue == task_overdue(t, today)
    &&& opt_view(c.date) == day_of(t)
    &&& c.date_label@ == date_caption(t)
    &&& c.project@ == project_caption(ps, t.project_id)
    &&& usize_seq_view(c.tags@) == tag_pills(tags, texts(t.tag_ids@))
    &&& c.recurrence@ == recurrence_caption(t)
    &&& c.significance@ == significance_caption(t)
    &&& c.billable@ == billable_caption(t)
    &&& opt_view(c.fuel) == fuel_caption(t)
}

fn tag_positions(tags: &Vec<Tag>, ids: &Vec<String>) -> (out: Vec<usize>)
    ensures
        usize_seq_view(out@) == tag_pills(tags@, texts(ids@)),
{
    let mut out: Vec<usize> = Vec::new();
    let mut i: usize = 0;
    while i < ids.len()
        invariant
            i <= ids@.len(),
            usize_seq_view(out@) == tag_pills(tags@, texts(ids@).take(i as int)),
        decreases ids@.len() - i,
    {
        proof {
            assert(texts(ids@).take(i + 1).drop_last() =~= texts(ids@).take(i as int));
            assert(texts(ids@).take(i + 1).last() == ids@[i as int]@);
        }
        match find_tag(tags, ids[i].as_str()) {
            Some(k) => {
                proof {
                    let ts = tags@;
                    let id = ids@[i as int]@;
                    assert(0 <= k < ts.len() && ts[k as int].id@ == id);
                    let c = choose|x: int| 0 <= x < ts.len() && ts[x].id@ == id && forall|j: int| 0 <= j < x ==> ts[j].id@ != id;
                    assert(c == k as int) by {
                        if c < k {
                            assert(ts[c].id@ != id);
                        }
                        if k < c {
                            assert(ts[k as int].id@ != id);
                        }
                    }
                }
                let ghost before = out@;
                out.push(k);
                proof {
                    assert(usize_seq_view(out@) =~= usize_seq_view(before).push(k as int));
                }
            },
            None => {},
        }
        i = i + 1;
    }
    proof {
        assert(texts(ids@).take(ids@.len() as int) =~= texts(ids@));
    }
    out
}

impl Agenda {
    /// The captions of the task page's property chips for `t` on the given
    /// day (`today` is a day key).
    pub fn task_chips_on(&self, t: &Todo, today: &str) -> (c: TaskChips)
        requires
            day_dates_cuttable(*t),
            t.priority <= 3,
        ensures
            chips_of(c, *t, self.records.projects@, self.records.tags@, today@),
    {
        let status = task_status(t);
        let (date, _conflict) = task_date(t);
        let overdue = match &date {
            Some(d) => str_less(d.as_str(), today),
            None => false,
        } && status != Status::Done && status != Status::Canceled;
        let date_label = match &date {
            Some(d) => fmt_day_month(d.as_str()),
            None => owned("Срок"),
        };
        let project = match &t.project_id {
            Some(p) => match find_project(&self.records.projects, p.as_str()) {
                Some(k) => self.records.projects[k].title.clone(),
                None => owned("Без проекта"),
            },
            None => owned("Без проекта"),
        };
        let recurrence = if t.recurrence.is_some() {
            describe_recurrence(&t.recurrence)
        } else {
            owned("Повторение")
        };
        let significance = match t.significance {
            Some(v) => {
                let mut s = String::new();
                push_decimal(&mut s, v as u64);
                push_str(&mut s, "/10");
                s
            },
            None => owned("Не оценено"),
        };
        let billable = if t.billable {
            let mut s = owned("Оплачиваемая $");
            let price: i64 = match t.price {
                Some(p) => p,
                None => 0,
            };
            push_signed_decimal(&mut s, price);
            s
        } else {
            owned("Без оплаты")
        };
        let fuel = match t.fuel_cost {
            Some(f) => {
                let mut s = owned("~");
                push_decimal(&mut s, f as u64);
                push_str(&mut s, "%");
                Some(s)
            },
            None => None,
        };
        let tags = tag_positions(&self.records.tags, &t.tag_ids);
        let c = TaskChips {
            status: owned(status_caption(status)),
            priority: owned(priority_caption(t.priority)),
            overdue,
            date,
            date_label,
            project,
            tags,
            recurrence,
            significance,
            billable,
            fuel,
        };
        proof {
            assert(c.significance@ =~= significance_caption(*t));
            assert(c.billable@ =~= billable_caption(*t));
            assert(opt_view(c.fuel) =~= fuel_caption(*t));
        }
        c
    }

    /// The captions of the task page's property chips for `t` today.
    pub fn task_chips(&self, t: &Todo) -> (c: TaskChips)
        requires
            day_dates_cuttable(*t),
            t.priority <= 3,
        ensures
            exists|d: CivilDate| valid_date(d) && chips_of(c, *t, self.records.projects@, self.records.tags@, key_text(d)),
    {
        let today = today_key();
        self.task_chips_on(t, today.as_str())
    }
}

// ---------------------------------------------------------------------------
// Chips of the quick entry
// ---------------------------------------------------------------------------

/// The captions of the quick entry's chips.
pub struct QeChips {
    pub date_label: String,
    pub has_date: bool,
    pub billable: String,
    pub project: String,
}

pub open spec fn qe_date_caption(d: Option<String>) -> Seq<char> {
    match d {
        Some(k) => fmt_day_month_text(k@),
        None => "Срок"@,
    }
}

pub open spec fn qe_chips_of(c: QeChips, a: Agenda) -> bool {
    &&& c.date_label@ == qe_date_caption(a.entry.date)
    &&& c.has_date == a.entry.date is Some
    &&& c.billable@ == if a.entry.billable { "Оплачиваемая"@ } else { "Без оплаты"@ }
    &&& c.project@ == match a.entry.project {
        Some(p) => match project_pos(a.records.projects@, p@) {
            Some(k) => a.records.projects@[k].title@,
            None => "Входящие"@,
        },
        None => "Входящие"@,
    }
}

impl Agenda {
    /// The captions of the quick entry's date, billing and project chips.
    pub fn qe_chips(&self) -> (c: QeChips)
        ensures
            qe_chips_of(c, *self),
    {
        let date_label = match &self.entry.date {
            Some(d) => fmt_day_month(d.as_str()),
            None => owned("Срок"),
        };
        let billable = if self.entry.billable {
            owned("Оплачиваемая")
        } else {
            owned("Без оплаты")
        };
        let project = match &self.entry.project {
            Some(p) => match find_project(&self.records.projects, p.as_str()) {
                Some(k) => self.records.projects[k].title.clone(),
                None => owned("Входящие"),
            },
            None => owned("Входящие"),
        };
        QeChips { date_label, has_date: self.entry.date.is_some(), billable, project }
    }
}

// ---------------------------------------------------------------------------
// Display options of a board
// ---------------------------------------------------------------------------

/// A choice in the display options popover.
#[derive(Clone, Copy, PartialEq, Eq, Debug, Structural)]
pub enum OptAct {
    View(BoardView),
    Sort(SortKey),
    Group(GroupKey),
}

/// One row of the display options popover.
pub struct OptRow {
    pub index: usize,
    pub label: &'static str,
    pub checked: bool,
    pub act: OptAct,
}

pub struct OptView {
    pub index: int,
    pub label: Seq<char>,
    pub checked: bool,
    pub act: OptAct,
}

pub open spec fn opt_view_of(r: OptRow) -> OptView {
    OptView { index: r.index as int, label: r.label@, checked: r.checked, act: r.act }
}

pub open spec fn ov(index: int, label: Seq<char>, checked: bool, act: OptAct) -> OptView {
    OptView { index, label, checked, act }
}

/// The options popover: the view, the sort order and, for lists, the
/// grouping, each row checked where it is the current choice.
pub open spec fn option_rows(o: BoardOpts) -> Seq<OptView> {
    seq![
        ov(0, "Список"@, o.view == BoardView::List, OptAct::View(BoardView::List)),
        ov(1, "Доска"@, o.view == BoardView::Kanban, OptAct::View(BoardView::Kanban)),
        ov(2, "По умолчанию"@, o.sort == SortKey::Default, OptAct::Sort(SortKey::Default)),
        ov(3, "По дате"@, o.sort == SortKey::Date, OptAct::Sort(SortKey::Date)),
        ov(4, "По приоритету"@, o.sort == SortKey::Priority, OptAct::Sort(SortKey::Priority)),
        ov(5, "По названию"@, o.sort == SortKey::Title, OptAct::Sort(SortKey::Title)),
    ] + if o.view == BoardView::List {
        seq![
            ov(6, "Нет"@, o.group == GroupKey::Flat, OptAct::Group(GroupKey::Flat)),
            ov(7, "По проекту"@, o.group == GroupKey::Project, OptAct::Group(GroupKey::Project)),
            ov(8, "По дате"@, o.group == GroupKey::Date, OptAct::Group(GroupKey::Date)),
        ]
    } else {
        seq![]
    }
}

fn push_opt(out: &mut Vec<OptRow>, index: usize, label: &'static str, checked: bool, act: OptAct)
    ensures
        final(out)@.map_values(|r: OptRow| opt_view_of(r)) == old(out)@.map_values(|r: OptRow| opt_view_of(r)).push(ov(index as int, label@, checked, act)),
{
    let ghost before = out@;
    out.push(OptRow { index, label, checked, act });
    proof {
        assert(out@.map_values(|r: OptRow| opt_view_of(r)) =~= before.map_values(|r: OptRow| opt_view_of(r)).push(ov(index as int, label@, checked, act)));
    }
}

/// The rows of the display options popover for the current options.
pub fn options_rows(o: BoardOpts) -> (out: Vec<OptRow>)
    ensures
        out@.map_values(|r: OptRow| opt_view_of(r)) == option_rows(o),
{
    let mut out: Vec<OptRow> = Vec::new();
    push_opt(&mut out, 0, "Список", o.view == BoardView::List, OptAct::View(BoardView::List));
    push_opt(&mut out, 1, "Доска", o.view == BoardView::Kanban, OptAct::View(BoardView::Kanban));
    push_opt(&mut out, 2, "По умолчанию", o.sort == SortKey::Default, OptAct::Sort(SortKey::Default));
    push_opt(&mut out, 3, "По дате", o.sort == SortKey::Date, OptAct::Sort(SortKey::Date));
    push_opt(&mut out, 4, "По приоритету", o.sort == SortKey::Priority, OptAct::Sort(SortKey::Priority));
    push_opt(&mut out, 5, "По названию", o.sort == SortKey::Title, OptAct::Sort(SortKey::Title));
    if o.view == BoardView::List {
        push_opt(&mut out, 6, "Нет", o.group == GroupKey::Flat, OptAct::Group(GroupKey::Flat));
        push_opt(&mut out, 7, "По проекту", o.group == GroupKey::Project, OptAct::Group(GroupKey::Project));
        push_opt(&mut out, 8, "По дате", o.group == GroupKey::Date, OptAct::Group(GroupKey::Date));
    }
    proof {
        assert(out@.map_values(|r: OptRow| opt_view_of(r)) =~= option_rows(o));
    }
    out
}

/// The options after a choice.
pub open spec fn opts_after(o: BoardOpts, act: OptAct) -> BoardOpts {
    match act {
        OptAct::View(v) => BoardOpts { view: v, ..o },
        OptAct::Sort(k) => BoardOpts { sort: k, ..o },
        OptAct::Group(g) => BoardOpts { group: g, ..o },
    }
}

impl Agenda {
    /// Applies a choice of the options popover to the page's stored options.
    pub fn choose_option(&mut self, key: String, act: OptAct)
        requires
            old(self).panels.boards.wf(),
        ensures
            boards_set(*old(self), *final(self), key@, opts_after(stored_board(*old(self), key@), act)),
    {
        let mut o = self.board_opts(key.as_str());
        match act {
            OptAct::View(v) => {
                o.view = v;
            },
            OptAct::Sort(k) => {
                o.sort = k;
            },
            OptAct::Group(g) => {
                o.group = g;
            },
        }
        self.set_board_opts(key, o);
    }
}

// ---------------------------------------------------------------------------
// Task rows
// ---------------------------------------------------------------------------

/// An entry of a context menu.
pub struct MenuItem {
    pub label: String,
    pub destructive: bool,
    pub action: MenuAction,
}

pub struct ItemView {
    pub label: Seq<char>,
    pub destructive: bool,
    pub action: ActionView,
}

pub open spec fn item_view(m: MenuItem) -> ItemView {
    ItemView { label: m.label@, destructive: m.destructive, action: action_view(m.action) }
}

pub open spec fn iv(label: Seq<char>, destructive: bool, action: ActionView) -> ItemView {
    ItemView { label, destructive, action }
}

/// What a task row of a list shows and offers.
pub struct TaskRow {
    /// Done or canceled.
    pub done: bool,
    pub overdue: bool,
    /// The "На сегодня" button is offered.
    pub move_today: bool,
    /// The status chip is offered.
    pub status_chip: bool,
    /// "done/total" of the checklist.
    pub checklist: Option<String>,
    /// The task's tags that exist, by position among the tags.
    pub tags: Vec<usize>,
    pub project: Option<String>,
    pub date: Option<String>,
    pub price: Option<String>,
    /// The row's context menu.
    pub menu: Vec<MenuItem>,
}

/// How many checklist items are completed.
pub open spec fn done_items(cl: Seq<crate::model::ChecklistItem>) -> nat
    decreases cl.len(),
{
    if cl.len() == 0 {
        0
    } else {
        done_items(cl.drop_last()) + if cl.last().is_completed {
            1nat
        } else {
            0nat
        }
    }
}

pub open spec fn finished(t: Todo) -> bool {
    status_of(t) == Status::Done || status_of(t) == Status::Canceled
}

pub open spec fn row_overdue(t: Todo, today: Seq<char>) -> bool {
    &&& match day_of(t) {
        Some(d) => text_lt(d, today),
        None => false,
    }
    &&& !finished(t)
}

pub open spec fn row_menu(t: Todo) -> Seq<ItemView> {
    if t.is_trashed {
        seq![iv("Восстановить"@, false, ActionView::RestoreTodo(t.id@)), iv("Удалить"@, true, ActionView::Noop)]
    } else {
        seq![iv("Удалить"@, true, ActionView::TrashTodo(t.id@))]
    }
}

/// `r` shows task `t` on `today`; `editable` lists offer actions.
pub open spec fn row_of(r: TaskRow, t: Todo, ps: Seq<Project>, tags: Seq<Tag>, today: Seq<char>, editable: bool) -> bool {
    &&& r.done == finished(t)
    &&& r.overdue == row_overdue(t, today)
    &&& r.move_today == (editable && !t.is_trashed && row_overdue(t, today))
    &&& r.status_chip == (editable && !t.is_trashed && !finished(t))
    &&& opt_view(r.checklist) == if t.checklist@.len() > 0 {
        Some(decimal(done_items(t.checklist@)) + "/"@ + decimal(t.checklist@.len()))
    } else {
        None
    }
    &&& usize_seq_view(r.tags@) == tag_pills(tags, texts(t.tag_ids@))
    &&& opt_view(r.project) == match t.project_id {
        Some(p) => match project_pos(ps, p@) {
            Some(k) => Some(ps[k].title@),
            None => None,
        },
        None => None,
    }
    &&& opt_view(r.date) == match day_of(t) {
        Some(d) => Some(fmt_day_month_text(d)),
        None => None,
    }
    &&& opt_view(r.price) == if t.billable {
        Some("$"@ + signed_decimal(
            match t.price {
                Some(p) => p as int,
                None => 0,
            },
        ))
    } else {
        None
    }
    &&& r.menu@.map_values(|m: MenuItem| item_view(m)) == row_menu(t)
}

fn checklist_done(cl: &Vec<crate::model::ChecklistItem>) -> (n: usize)
    ensures
        n == done_items(cl@),
{
    let mut n: usize = 0;
    let mut i: usize = 0;
    while i < cl.len()
        invariant
            i <= cl@.len(),
            n == done_items(cl@.take(i as int)),
            n <= i,
        decreases cl@.len() - i,
    {
        proof {
            assert(cl@.take(i + 1).drop_last() =~= cl@.take(i as int));
        }
        if cl[i].is_completed {
            n = n + 1;
        }
        i = i + 1;
    }
    proof {
        assert(cl@.take(cl@.len() as int) =~= cl@);
    }
    n
}

impl Agenda {
    /// What the row of task `t` shows on the given day (a day key).
    pub fn task_row_on(&self, t: &Todo, today: &str, editable: bool) -> (r: TaskRow)
        requires
            day_dates_cuttable(*t),
        ensures
            row_of(r, *t, self.records.projects@, self.records.tags@, today@, editable),
    {
        let status = task_status(t);
        let done = status == Status::Done || status == Status::Canceled;
        let (date, _conflict) = task_date(t);
        let overdue = match &date {
            Some(d) => str_less(d.as_str(), today),
            None => false,
        } && !done;
        let checklist = if t.checklist.len() > 0 {
            let mut s = String::new();
            push_decimal(&mut s, checklist_done(&t.checklist) as u64);
            push_str(&mut s, "/");
            push_decimal(&mut s, t.checklist.len() as u64);
            Some(s)
        } else {
            None
        };
        let project = match &t.project_id {
            Some(p) => match find_project(&self.records.projects, p.as_str()) {
                Some(k) => Some(self.records.projects[k].title.clone()),
                None => None,
            },
            None => None,
        };
        let date_text = match &date {
            Some(d) => Some(fmt_day_month(d.as_str())),
            None => None,
        };
        let price = if t.billable {
            let mut s = owned("$");
            let p: i64 = match t.price {
                Some(p) => p,
                None => 0,
            };
            push_signed_decimal(&mut s, p);
            Some(s)
        } else {
            None
        };
        let mut menu: Vec<MenuItem> = Vec::new();
        if t.is_trashed {
            menu.push(MenuItem { label: owned("Восстановить"), destructive: false, action: MenuAction::RestoreTodo(t.id.clone()) });
            menu.push(MenuItem { label: owned("Удалить"), destructive: true, action: MenuAction::Noop });
        } else {
            menu.push(MenuItem { label: owned("Удалить"), destructive: true, action: MenuAction::TrashTodo(t.id.clone()) });
        }
        let r = TaskRow {
            done,
            overdue,
            move_today: editable && !t.is_trashed && overdue,
            status_chip: editable && !t.is_trashed && !done,
            checklist,
            tags: tag_positions(&self.records.tags, &t.tag_ids),
            project,
            date: date_text,
            price,
            menu,
        };
        proof {
            assert(r.menu@.map_values(|m: MenuItem| item_view(m)) =~= row_menu(*t));
            if t.checklist@.len() > 0 {
                assert(opt_view(r.checklist)->0 =~= decimal(done_items(t.checklist@)) + "/"@ + decimal(t.checklist@.len()));
            }
            if t.billable {
                assert(opt_view(r.price)->0 =~= "$"@ + signed_decimal(
                    match t.price {
                        Some(p) => p as int,
                        None => 0,
                    },
                ));
            }
        }
        r
    }
}


/// The status dropdown offers, in this order, Inbox "Входящие", Todo
/// "Сделать", Started "В работе", Deferred "Потом", Done "Готово" and
/// Canceled "Отменено", each setting that status and checked when it is
/// the task's; the priority dropdown offers none, low, medium and high
/// ("Без приоритета", "Низкий", "Средний", "Высокий"), checked at the
/// task's own; the repeat period dropdown day, week, month, year.
pub proof fn law_dropdown_vocabulary(a: Agenda, tid: Seq<char>, i: int)
    requires
        0 <= i < 6,
    ensures
        ({
            let st = seq![Status::Inbox, Status::Todo, Status::Started, Status::Deferred, Status::Done, Status::Canceled][i];
            let r = status_rows(a, tid)[i];
            &&& status_rows(a, tid).len() == 6
            &&& r.label == seq!["Входящие"@, "Сделать"@, "В работе"@, "Потом"@, "Готово"@, "Отменено"@][i]
            &&& r.action == ActionView::SetStatus(tid, st)
            &&& r.checked == (cur_status(a, tid) == Some(st))
        }),
        i < 4 ==> ({
            let r = priority_rows(a, tid)[i];
            &&& priority_rows(a, tid).len() == 4
            &&& r.label == seq!["Без приоритета"@, "Низкий"@, "Средний"@, "Высокий"@][i]
            &&& r.action == ActionView::SetPriority(tid, i as u8)
            &&& r.checked == (cur_priority(a, tid) == i)
        }),
        i < 4 ==> ({
            let r = freq_rows(a)[i];
            &&& freq_rows(a).len() == 4
            &&& r.label == seq!["День"@, "Неделя"@, "Месяц"@, "Год"@][i]
            &&& r.action == ActionView::RecurSetFreq(i as u8)
        }),
        i < 4 ==> date_label(i) == seq!["Сегодня"@, "Завтра"@, "Через неделю"@, "Без даты"@][i],
{
}

} // verus!
