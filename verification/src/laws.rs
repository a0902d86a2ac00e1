//! Properties of the agenda that span several operations.
use vstd::prelude::*;
use crate::capture::{mentioned, project_mention, quick_entry_capture};
use crate::dates::{key_text, CivilDate};
use crate::edits::{edited, TodoEdit};
use crate::keys::key_handled;
use crate::model::{archived, done_on, due_today, overdue, same_todo, todo_eq, Project, Todo};
use crate::order::lemma_bytes_lt_irreflexive;
use crate::quick::{entry_saved, entry_task};
use crate::source_size::{count_of, lines_in};
use crate::stats::{count_after, done_days, run_ending, stats_of, CompletionStats};
use crate::startup::{boards_set, stored_board};
use crate::lists::{GroupKey, all_chosen};
use crate::model::{opt_view, Status};
use crate::menus::{
    billable_rows, cur_billable, cur_day, cur_priority, cur_significance, cur_status, dv, priority_rows,
    significance_rows, status_at, status_rows, todo_of, ActionView,
};
use crate::dates::decimal;
use crate::workspace::updated;
use crate::order::sorted_selection;
use crate::rows::{
    column_flags, covered, date_groups, date_keys, day_of, every, exactly_once, flatten, grouped_rows, joined,
    key_flags, key_ranks, lemma_date_keys, lemma_groups_once, lemma_marked, lemma_tasks_of_flatten, marked,
    no_project_flags, orphan_flags, orphaned, project_flags, project_groups, tasks_in, Group,
    RowView,
};
use crate::workspace::{
    lemma_project_pos_from, project_pos,
    gate_open, id_pos, lemma_id_pos_from, navigated, route_eq, saved,
    settings_route, upsert, Agenda, Moment, Panels, Route,
};

verus! {

/// After an upsert the task is found under its id.
pub proof fn lemma_upsert_found(ts: Seq<Todo>, t: Todo)
    ensures
        id_pos(upsert(ts, t), t.id@) matches Some(i) && upsert(ts, t)[i] == t,
        upsert(ts, t).len() == if id_pos(ts, t.id@) is Some {
            ts.len()
        } else {
            ts.len() + 1
        },
{
    let u = upsert(ts, t);
    lemma_id_pos_from(ts, t.id@, 0);
    lemma_id_pos_from(u, t.id@, 0);
    match id_pos(ts, t.id@) {
        Some(i) => {
            assert(u[i] == t);
            assert forall|j: int| 0 <= j < i implies u[j].id@ != t.id@ by {
                assert(u[j] == ts[j]);
            }
            if id_pos(u, t.id@) is None {
                assert(u[i].id@ != t.id@);
            }
        },
        None => {
            let n = ts.len() as int;
            assert(u[n] == t);
            assert forall|j: int| 0 <= j < n implies u[j].id@ != t.id@ by {
                assert(u[j] == ts[j]);
            }
            if id_pos(u, t.id@) is None {
                assert(u[n].id@ != t.id@);
            }
        },
    }
}

/// Opening the page that is already shown changes nothing, so opening a
/// page twice is the same as opening it once.
pub proof fn law_navigate_idempotent(p: Panels, q: Panels, w: Panels, r: Route)
    requires
        navigated(p, q, r),
        navigated(q, w, r),
    ensures
        w == q,
{
    assert(route_eq(q.route, r));
}

/// Entering the settings group from a page outside it and then following
/// "Назад" leads back to that page.
pub proof fn law_settings_round_trip(p: Panels, q: Panels, w: Panels, s: Route)
    requires
        !settings_route(p.route),
        settings_route(s),
        navigated(p, q, s),
        navigated(q, w, q.back_route),
    ensures
        q.route == s,
        w.route == p.route,
{
    assert(!route_eq(p.route, s));
    assert(!route_eq(q.route, q.back_route));
}

/// In demo mode, an allowed edit that changes a task is kept, and the task
/// is found under its id afterwards (a read gives back the write).
pub proof fn law_demo_save_then_find(old: Agenda, new: Agenda, before: Option<Todo>, t: Todo, r: bool)
    requires
        old.link.demo,
        saved(old, new, before, t, r),
        !(before matches Some(b) && todo_eq(b, t)),
        before matches Some(b) ==> b.system_kind is None,
    ensures
        r,
        id_pos(new.records.todos@, t.id@) matches Some(i) && new.records.todos@[i] == t,
{
    lemma_upsert_found(old.records.todos@, t);
}

/// Saving an edit that changes nothing leaves the agenda as it was.
pub proof fn law_unchanged_save_is_noop(old: Agenda, new: Agenda, b: Todo, t: Todo, r: bool)
    requires
        gate_open(old.link),
        todo_eq(b, t),
        saved(old, new, Some(b), t, r),
    ensures
        r,
        new == old,
{
}

/// While the storage worker is busy, nothing is saved.
pub proof fn law_busy_refuses_save(old: Agenda, new: Agenda, before: Option<Todo>, t: Todo, r: bool)
    requires
        !old.link.demo,
        old.link.busy,
        saved(old, new, before, t, r),
    ensures
        !r,
        new.records == old.records,
        new.link.outbox == old.link.outbox,
{
}

/// Moving a task to the trash and restoring it gives the task back.
pub proof fn law_trash_restore(b: Todo, t: Todo, u: Todo)
    requires
        !b.is_trashed,
        edited(b, TodoEdit::Trash, t),
        edited(t, TodoEdit::Restore, u),
    ensures
        same_todo(u, b),
{
}

/// A trailing newline does not count as a line of its own.
pub proof fn law_trailing_newline(s: Seq<char>)
    requires
        s.len() > 0,
        s.last() != '\n',
    ensures
        lines_in(s.push('\n')) == lines_in(s),
{
    assert(s.push('\n').drop_last() =~= s);
    assert(count_of(s.push('\n'), '\n') == count_of(s, '\n') + 1);
}

/// The display options stored for a page are read back; other pages keep
/// theirs.
pub proof fn law_board_options_read_back(
    old: Agenda,
    new: Agenda,
    key: Seq<char>,
    opts: crate::workspace::BoardOpts,
    other: Seq<char>,
)
    requires
        boards_set(old, new, key, opts),
        other != key,
    ensures
        stored_board(new, key) == opts,
        stored_board(new, other) == stored_board(old, other),
{
}

/// Escape never saves a task: the records stay, and the quick entry is
/// closed.
pub proof fn law_escape_keeps_tasks(old: Agenda, new: Agenda, r: crate::keys::KeyEffect)
    requires
        key_handled(old, new, "escape"@, false, false, false, r),
    ensures
        new.records == old.records,
        old.search.open ==> !new.search.open,
        !old.search.open ==> !new.entry.open,
{
    reveal_strlit("escape");
    reveal_strlit("r");
    reveal_strlit("k");
    reveal_strlit("b");
    reveal_strlit("n");
}

/// A task is never both overdue and due today, nor overdue and done today:
/// the two parts of the Today list share no task.
pub proof fn law_overdue_excludes_due_today(t: Todo, today: Seq<char>)
    ensures
        !(overdue(t, today) && due_today(t, today)),
        !(overdue(t, today) && done_on(t, today)),
{
    lemma_bytes_lt_irreflexive(vstd::utf8::encode_utf8(today));
}

/// A completion is never both on today and before it.
pub proof fn law_done_today_not_archived(t: Todo, today: Seq<char>)
    ensures
        !(done_on(t, today) && archived(t, today)),
{
    lemma_bytes_lt_irreflexive(vstd::utf8::encode_utf8(today));
}

/// A day already selected in the quick entry is kept, with the title as
/// typed.
pub proof fn law_selected_day_wins(title: Seq<char>, day: Seq<char>, today: CivilDate)
    ensures
        quick_entry_capture(title, Some(day), today) == Some((title, Some(day))),
{
}

/// Without a mention of any project, the title is kept and no project is
/// picked.
pub proof fn law_no_mention_keeps_title(
    title: Seq<char>,
    ps: Seq<Project>,
    text: Seq<char>,
    id: Option<Seq<char>>,
)
    requires
        forall|j: int| 0 <= j < ps.len() ==> !mentioned(title, #[trigger] ps[j]),
        project_mention(title, ps, text, id),
    ensures
        text == title,
        id is None,
{
}

/// Saving the quick entry in demo mode adds one task (under a fresh id) and
/// closes the entry.
pub proof fn law_quick_entry_adds_task(old: Agenda, new: Agenda, title: Seq<char>, notes: Seq<char>, m: Moment)
    requires
        old.link.demo,
        crate::text::trim_ws(title).len() > 0,
        id_pos(old.records.todos@, m.fresh_id@) is None,
        entry_saved(old, new, title, notes, m),
    ensures
        !new.entry.open,
        new.records.todos@.len() == old.records.todos@.len() + 1,
        new.records.todos@.last().id@ == m.fresh_id@,
{
    let captured = crate::quick::entry_capture(old, title, m)->Some_0;
    let day = crate::quick::entry_day(old, m, captured.1);
    let (clean, pid, t, mid, r) = choose|clean: Seq<char>, pid: Option<Seq<char>>, t: Todo, mid: Agenda, r: bool|
        {
            &&& (old.entry.project is Some ==> clean == captured.0 && pid is None)
            &&& (old.entry.project is None ==> project_mention(
                captured.0,
                old.records.projects@,
                clean,
                pid,
            ))
            &&& #[trigger] entry_task(t, old, notes, m, clean, day, crate::quick::entry_project(old, pid))
            &&& #[trigger] saved(old, mid, None, t, r)
            &&& new == if r {
                Agenda { entry: crate::workspace::Entry { open: false, ..mid.entry }, ..mid }
            } else {
                mid
            }
        };
    assert(t.id@ == m.fresh_id@);
    lemma_upsert_found(old.records.todos@, t);
    assert(upsert(old.records.todos@, t) == old.records.todos@.push(t));
}

proof fn lemma_count_after_bound(ds: Seq<CivilDate>, c: CivilDate)
    ensures
        0 <= count_after(ds, c) <= ds.len(),
    decreases ds.len(),
{
    if ds.len() > 0 {
        lemma_count_after_bound(ds.drop_last(), c);
    }
}

/// The completions of the last week or month are among all completions,
/// and the current run of days is never longer than the best one.
pub proof fn law_stats_bounds(ts: Seq<Todo>, today: CivilDate, s: CompletionStats)
    requires
        stats_of(ts, today, s),
    ensures
        s.last7 <= s.total,
        s.last30 <= s.total,
        s.current_streak <= s.best_streak,
{
    let ds = done_days(ts);
    lemma_count_after_bound(ds, crate::dates::chrono_add_days(today, -7)->Some_0);
    lemma_count_after_bound(ds, crate::dates::chrono_add_days(today, -30)->Some_0);
    let start = if ds.contains(today) {
        today
    } else {
        crate::dates::chrono_add_days(today, -1)->Some_0
    };
    if s.current_streak > 0 {
        assert(crate::stats::days_back(start, 0) == Some(start));
        assert(ds.contains(start));
        let i = choose|i: int| 0 <= i < ds.len() && ds[i] == start;
        assert(run_ending(ds, ds[i], s.current_streak as nat));
    }
}

/// An upsert of a task with another id keeps where and what a task is.
pub proof fn lemma_upsert_other(ts: Seq<Todo>, n: Todo, id: Seq<char>)
    requires
        n.id@ != id,
    ensures
        id_pos(upsert(ts, n), id) == id_pos(ts, id),
        id_pos(ts, id) matches Some(j) ==> upsert(ts, n)[j] == ts[j],
{
    let u = upsert(ts, n);
    lemma_id_pos_from(ts, id, 0);
    lemma_id_pos_from(u, id, 0);
    lemma_id_pos_from(ts, n.id@, 0);
    assert forall|j: int| 0 <= j < ts.len() implies (u[j].id@ == id) == (ts[j].id@ == id) by {
        if let Some(k) = id_pos(ts, n.id@) {
            if j == k {
                assert(u[j] == n);
            } else {
                assert(u[j] == ts[j]);
            }
        } else {
            assert(u[j] == ts[j]);
        }
    }
    if id_pos(ts, n.id@) is None {
        assert(u[ts.len() as int] == n);
    }
    match id_pos(ts, id) {
        Some(j) => {
            assert(u[j].id@ == id);
            if id_pos(u, id) != Some(j) {
                match id_pos(u, id) {
                    Some(j2) => {
                        assert(j2 < j);
                        assert(u[j2].id@ == id);
                    },
                    None => {},
                }
            }
        },
        None => {
            if let Some(j2) = id_pos(u, id) {
                if j2 < ts.len() {
                    assert(u[j2].id@ == id);
                } else {
                    assert(u[j2] == n);
                }
            }
        },
    }
}

/// In demo mode, completing an open task marks it done at the moment's
/// instant, and it is found under its id afterwards.
pub proof fn law_demo_completion_marks_done(old: Agenda, new: Agenda, id: Seq<char>, m: Moment, i: int)
    requires
        old.link.demo,
        id_pos(old.records.todos@, id) == Some(i),
        !old.records.todos@[i].is_completed,
        old.records.todos@[i].system_kind is None,
        m.fresh_id@ != id,
        crate::workspace::todo_completed(old, new, id, m),
    ensures
        new.records.todos@.len() >= old.records.todos@.len(),
        id_pos(new.records.todos@, id) matches Some(j) && new.records.todos@[j].is_completed
            && crate::model::status_of(new.records.todos@[j]) == crate::model::Status::Done
            && crate::model::opt_view(new.records.todos@[j].completed_at) == Some(m.now@),
{
    lemma_id_pos_from(old.records.todos@, id, 0);
    let (b, t, nx) = choose|b: Todo, t: Todo, nx: Option<Todo>|
        {
            &&& same_todo(b, old.records.todos@[i])
            &&& #[trigger] crate::workspace::completed_form(b, t, m.now@)
            &&& match b.recurrence {
                None => nx is None,
                Some(rule) => nx matches Some(n) && crate::workspace::next_form(
                    b,
                    n,
                    m.fresh_id@,
                    crate::recurrence::next_recurrence_text(rule, t, m.today),
                    m.now@,
                    old.records.todos@.len() as i32,
                ),
            }
            &&& #[trigger] crate::workspace::completion_saved(old, new, b, t, nx)
        };
    let mid = choose|mid: crate::workspace::Records|
        crate::workspace::accepted(old.records, mid, t) && match nx {
            Some(n) => crate::workspace::accepted(mid, new.records, n),
            None => new.records == mid,
        };
    assert(t.id@ == id);
    lemma_upsert_found(old.records.todos@, t);
    match nx {
        Some(n) => {
            assert(n.id@ == m.fresh_id@);
            lemma_upsert_other(mid.todos@, n, id);
            lemma_upsert_found(mid.todos@, n);
        },
        None => {},
    }
}

/// No two projects share an id.
pub open spec fn distinct_ids(ps: Seq<Project>) -> bool {
    forall|a: int, b: int| 0 <= a < b < ps.len() ==> #[trigger] ps[a].id@ != #[trigger] ps[b].id@
}

/// A board list shows each of its tasks exactly once, whatever the grouping
/// (grouping by project, when no two projects share an id).
pub proof fn law_grouping_shows_each_task_once(
    items: Seq<Todo>,
    ps: Seq<Project>,
    group: GroupKey,
    today: Seq<char>,
    rows: Seq<RowView>,
)
    requires
        grouped_rows(items, ps, group, today, rows),
        group == GroupKey::Project ==> distinct_ids(ps),
    ensures
        exactly_once(tasks_in(rows), items.len() as int),
{
    let n = items.len() as int;
    match group {
        GroupKey::Flat => {
            let gs: Seq<Group> = seq![(None, every(n))];
            lemma_tasks_of_flatten(gs);
            assert(gs.drop_last() =~= Seq::<Group>::empty());
            assert(joined(gs.drop_last()) =~= Seq::<int>::empty());
            assert(joined(gs) =~= every(n));
            assert forall|i: int| 0 <= i < n implies #[trigger] every(n).contains(i) by {
                assert(every(n)[i] == i);
            }
        },
        GroupKey::Project => {
            let gs = project_groups(items, ps);
            let fs: Seq<Seq<bool>> = seq![no_project_flags(items)]
                + Seq::new(ps.len(), |k: int| project_flags(items, ps[k].id@))
                + seq![orphan_flags(items, ps)];
            let m = ps.len() as int;
            assert forall|j: int| 0 <= j < fs.len() implies (#[trigger] fs[j]).len() == n && gs[j].1 == marked(fs[j]) by {
                if j == 0 {
                } else if j <= m {
                    assert(fs[j] == project_flags(items, ps[j - 1].id@));
                } else {
                }
            }
            assert forall|j: int, k: int, v: int| 0 <= j < k < fs.len() && 0 <= v < n implies !(#[trigger] fs[j][v] && #[trigger] fs[k][v]) by {
                let t = items[v];
                if fs[j][v] && fs[k][v] {
                    if j == 0 {
                        assert(t.project_id is None);
                        if k <= m {
                            assert(fs[k] == project_flags(items, ps[k - 1].id@));
                        }
                    } else {
                        assert(fs[j] == project_flags(items, ps[j - 1].id@));
                        assert(opt_view(t.project_id) == Some(ps[j - 1].id@));
                        if k <= m {
                            assert(fs[k] == project_flags(items, ps[k - 1].id@));
                            assert(ps[j - 1].id@ != ps[k - 1].id@);
                        } else {
                            let p = t.project_id->0;
                            assert(orphaned(ps, t));
                            lemma_project_pos_from(ps, p@, 0);
                            assert(ps[j - 1].id@ == p@);
                        }
                    }
                }
            }
            assert forall|v: int| 0 <= v < n implies #[trigger] covered(fs, v) by {
                let t = items[v];
                match t.project_id {
                    None => {
                        assert(fs[0][v]);
                    },
                    Some(p) => {
                        lemma_project_pos_from(ps, p@, 0);
                        match project_pos(ps, p@) {
                            Some(k) => {
                                assert(fs[k + 1] == project_flags(items, ps[k].id@));
                                assert(fs[k + 1][v]);
                            },
                            None => {
                                assert(fs[m + 1] == orphan_flags(items, ps));
                                assert(fs[m + 1][v]);
                            },
                        }
                    },
                }
            }
            lemma_groups_once(gs, fs, n);
            lemma_tasks_of_flatten(gs);
        },
        GroupKey::Date => {
            let ks = date_keys(items);
            let q = choose|q: Seq<int>|
                sorted_selection(key_ranks(ks), all_chosen(ks.len()), q) && rows == #[trigger] flatten(
                    date_groups(items, ks, q, today),
                );
            let gs = date_groups(items, ks, q, today);
            let fs: Seq<Seq<bool>> = Seq::new(q.len(), |j: int| key_flags(items, ks[q[j]]));
            lemma_date_keys(items);
            assert forall|j: int| 0 <= j < fs.len() implies (#[trigger] fs[j]).len() == n && gs[j].1 == marked(fs[j]) by {
            }
            assert forall|j: int, k: int, v: int| 0 <= j < k < fs.len() && 0 <= v < n implies !(#[trigger] fs[j][v] && #[trigger] fs[k][v]) by {
                if fs[j][v] && fs[k][v] {
                    assert(q[j] != q[k]);
                    assert(0 <= q[j] < ks.len() && 0 <= q[k] < ks.len());
                    assert(ks[q[j]] == day_of(items[v]));
                    assert(ks[q[k]] == day_of(items[v]));
                    if q[j] < q[k] {
                        assert(ks[q[j]] != ks[q[k]]);
                    } else {
                        assert(ks[q[k]] != ks[q[j]]);
                    }
                }
            }
            assert forall|v: int| 0 <= v < n implies #[trigger] covered(fs, v) by {
                assert(ks.contains(day_of(items[v])));
                let i = choose|i: int| 0 <= i < ks.len() && ks[i] == day_of(items[v]);
                assert(all_chosen(ks.len())[i]);
                assert(key_ranks(ks).len() == ks.len());
                assert(q.contains(i));
                let j = choose|j: int| 0 <= j < q.len() && q[j] == i;
                assert(fs[j][v]);
            }
            lemma_groups_once(gs, fs, n);
            lemma_tasks_of_flatten(gs);
        },
    }
}

/// The columns a kanban board shows.
pub open spec fn kanban_status(s: Status) -> bool {
    s == Status::Todo || s == Status::Started || s == Status::Done
}

/// No task shows in two columns of a kanban board.
pub proof fn law_kanban_columns_disjoint(items: Seq<Todo>, a: Status, b: Status, v: int)
    requires
        kanban_status(a),
        kanban_status(b),
        a != b,
    ensures
        !(marked(column_flags(items, a)).contains(v) && marked(column_flags(items, b)).contains(v)),
{
    lemma_marked(column_flags(items, a));
    lemma_marked(column_flags(items, b));
    if marked(column_flags(items, a)).contains(v) && marked(column_flags(items, b)).contains(v) {
        let x = choose|x: int| 0 <= x < marked(column_flags(items, a)).len() && marked(column_flags(items, a))[x] == v;
        let y = choose|y: int| 0 <= y < marked(column_flags(items, b)).len() && marked(column_flags(items, b))[y] == v;
        assert(column_flags(items, a)[v]);
        assert(column_flags(items, b)[v]);
    }
}

/// In demo mode, picking a status in the status dropdown of a task makes
/// the dropdown, opened again, check that status and no other (for a task
/// that is not both completed and canceled).
pub proof fn law_status_pick_checks_it(old: Agenda, new: Agenda, tid: Seq<char>, s: Status, m: Moment)
    requires
        old.link.demo,
        todo_of(old, tid) matches Some(t) && t.system_kind is None && !(t.is_completed
            && crate::model::status_of(t) == Status::Canceled),
        m.fresh_id@ != tid,
        crate::workspace::status_set(old, new, tid, s, m),
    ensures
        cur_status(new, tid) == Some(s),
        forall|i: int| 0 <= i < 6 ==> #[trigger] status_rows(new, tid)[i].checked == (status_at(i) == s),
{
    let ts = old.records.todos@;
    lemma_id_pos_from(ts, tid, 0);
    let i = id_pos(ts, tid)->0;
    if s == Status::Done {
        if ts[i].is_completed {
            assert(new == old);
            assert(todo_of(new, tid) == Some(ts[i]));
            assert(crate::model::status_of(ts[i]) == Status::Done);
        } else {
            law_demo_completion_marks_done(old, new, tid, m, i);
            let j = id_pos(new.records.todos@, tid)->0;
            assert(todo_of(new, tid) == Some(new.records.todos@[j]));
        }
        assert(cur_status(new, tid) == Some(s));
    } else {
        let k = choose|k: String| k@ == key_text(m.today) && updated(old, new, tid, TodoEdit::Status(s, k));
        let e = TodoEdit::Status(s, k);
        let (b, t2, r) = choose|b: Todo, t: Todo, r: bool|
            same_todo(b, ts[i]) && #[trigger] edited(b, e, t) && #[trigger] saved(old, new, Some(b), t, r);
        assert(crate::model::status_of(t2) == s);
        if todo_eq(b, t2) {
            assert(new.records == old.records);
            assert(crate::model::status_of(ts[i]) == crate::model::status_of(t2));
        } else {
            law_demo_save_then_find(old, new, Some(b), t2, r);
            assert(t2.id@ == tid);
            let j = id_pos(new.records.todos@, tid)->0;
            assert(new.records.todos@[j] == t2);
            assert(todo_of(new, tid) == Some(t2));
        }
        assert(cur_status(new, tid) == Some(s));
    }
}

/// In demo mode an edit of an ordinary task reads back: afterwards the task
/// under the id agrees field by field with the edited one.
pub proof fn lemma_demo_edit_read_back(old: Agenda, new: Agenda, tid: Seq<char>, e: TodoEdit)
    requires
        old.link.demo,
        todo_of(old, tid) matches Some(t) && t.system_kind is None,
        updated(old, new, tid, e),
    ensures
        todo_of(new, tid) matches Some(n) && exists|b: Todo, t2: Todo|
            same_todo(b, todo_of(old, tid)->0) && #[trigger] edited(b, e, t2) && todo_eq(n, t2),
{
    let ts = old.records.todos@;
    lemma_id_pos_from(ts, tid, 0);
    let i = id_pos(ts, tid)->0;
    let (b, t2, r) = choose|b: Todo, t: Todo, r: bool|
        same_todo(b, ts[i]) && #[trigger] edited(b, e, t) && #[trigger] saved(old, new, Some(b), t, r);
    if todo_eq(b, t2) {
        assert(new.records == old.records);
        assert(todo_of(new, tid) == Some(ts[i]));
        assert(todo_eq(ts[i], t2));
    } else {
        law_demo_save_then_find(old, new, Some(b), t2, r);
        assert(t2.id@ == tid);
        assert(todo_of(new, tid) == Some(t2));
        assert(todo_eq(t2, t2));
    }
}

/// In demo mode, picking a priority in a task's priority dropdown makes the
/// dropdown, opened again, check that priority and no other.
pub proof fn law_priority_pick_checks_it(old: Agenda, new: Agenda, tid: Seq<char>, p: u8)
    requires
        old.link.demo,
        todo_of(old, tid) matches Some(t) && t.system_kind is None,
        p <= 3,
        updated(old, new, tid, TodoEdit::Priority(p)),
    ensures
        cur_priority(new, tid) == p,
        forall|i: int| 0 <= i < 4 ==> #[trigger] priority_rows(new, tid)[i].checked == (i == p),
{
    lemma_demo_edit_read_back(old, new, tid, TodoEdit::Priority(p));
}

/// In demo mode, picking "billable" or "not billable" for a task makes its
/// dropdown check that choice.
pub proof fn law_billable_pick_checks_it(old: Agenda, new: Agenda, tid: Seq<char>, x: bool)
    requires
        old.link.demo,
        todo_of(old, tid) matches Some(t) && t.system_kind is None,
        updated(old, new, tid, TodoEdit::Billable(x)),
    ensures
        cur_billable(new, tid) == x,
        billable_rows(new, tid)[1].checked == x,
        billable_rows(new, tid)[0].checked == !x,
{
    lemma_demo_edit_read_back(old, new, tid, TodoEdit::Billable(x));
}

/// In demo mode, rating a task in its significance dropdown makes the
/// dropdown check that mark ("Не оценено" for none) and no other.
pub proof fn law_significance_pick_checks_it(old: Agenda, new: Agenda, tid: Seq<char>, x: Option<u8>)
    requires
        old.link.demo,
        todo_of(old, tid) matches Some(t) && t.system_kind is None,
        x matches Some(v) ==> 1 <= v <= 10,
        updated(old, new, tid, TodoEdit::Significance(x)),
    ensures
        cur_significance(new, tid) == x,
        significance_rows(new, tid)[0].checked == (x is None),
        forall|i: int| 1 <= i <= 10 ==> #[trigger] significance_rows(new, tid)[i].checked == (x == Some(i as u8)),
{
    lemma_demo_edit_read_back(old, new, tid, TodoEdit::Significance(x));
    assert forall|i: int| 1 <= i <= 10 implies #[trigger] significance_rows(new, tid)[i].checked == (x == Some(i as u8)) by {
        assert(significance_rows(new, tid)[i] == dv(i, decimal(i as nat) + "/10"@, cur_significance(new, tid) == Some(i as u8), ActionView::SetSignificance(tid, Some(i as u8))));
    }
}

/// In demo mode, giving a task a day (a ten-byte day key) or no day in its
/// date dropdown makes that the task's day, which the dropdown, opened
/// again, compares its choices with.
pub proof fn law_date_pick_reads_back(old: Agenda, new: Agenda, tid: Seq<char>, d: Option<String>)
    requires
        old.link.demo,
        todo_of(old, tid) matches Some(t) && t.system_kind is None,
        d matches Some(k) ==> vstd::utf8::encode_utf8(k@).len() == 10,
        updated(old, new, tid, TodoEdit::Date(d)),
    ensures
        cur_day(new, tid) == opt_view(d),
{
    lemma_demo_edit_read_back(old, new, tid, TodoEdit::Date(d));
    match d {
        Some(k) => {
            let bytes = vstd::utf8::encode_utf8(k@);
            assert(bytes.take(10) =~= bytes);
            vstd::utf8::encode_utf8_decode_utf8(k@);
        },
        None => {},
    }
}

} // verus!
