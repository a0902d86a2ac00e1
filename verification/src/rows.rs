//! The rows a task list shows: group captions and tasks for a board's
//! grouping, the kanban columns, and the rows of the logbook, project,
//! recurring and calendar-day pages. Tasks are named by their position in
//! the list handed in.
use vstd::prelude::*;
use vstd::utf8::*;
use crate::model::{Todo, Project, CalEvent, Status, status_of, task_status, task_date_of,
    task_date, opt_view, date_part, date_cuttable, day_dates_cuttable,
    done_dates_cuttable, archived, is_archived, date_only};
use crate::order::{Rank, OrderKey, ranks_of, sorted_selection, sort_selected,
    usize_seq_view};
use crate::lists::{GroupKey, all_chosen};
use crate::workspace::{project_pos, find_project};
use crate::views::{date_group_text, date_group_label_on};
use crate::text::{str_equal, bytes_of};
use crate::dates::{CivilDate, valid_date, key_text, today_key};

verus! {

/// One row of a task list.
pub enum FlatRow {
    /// A group caption and the number of tasks under it.
    Header(String, usize),
    /// A task, by its position in the list the rows were made from.
    Task(usize),
    /// An archived project (logbook).
    ArchivedProject(Project),
}

/// What a row shows.
pub enum RowView {
    Header(Seq<char>, int),
    Task(int),
    Archived(Project),
}

pub open spec fn row_view(r: FlatRow) -> RowView {
    match r {
        FlatRow::Header(s, n) => RowView::Header(s@, n as int),
        FlatRow::Task(i) => RowView::Task(i as int),
        FlatRow::ArchivedProject(p) => RowView::Archived(p),
    }
}

pub open spec fn rows_view(rs: Seq<FlatRow>) -> Seq<RowView> {
    rs.map_values(|r: FlatRow| row_view(r))
}

/// The positions whose flag is set, in order.
pub open spec fn marked(flags: Seq<bool>) -> Seq<int>
    decreases flags.len(),
{
    if flags.len() == 0 {
        seq![]
    } else {
        let p = marked(flags.drop_last());
        if flags.last() {
            p.push(flags.len() - 1)
        } else {
            p
        }
    }
}

/// The positions `0..n`.
pub open spec fn every(n: int) -> Seq<int> {
    Seq::new(n as nat, |i: int| i)
}

/// A group of tasks: its caption (`None`: none shown) and the positions.
pub type Group = (Option<Seq<char>>, Seq<int>);

/// The rows of one group: nothing for an empty group, else the caption with
/// the count (where there is a caption) and the tasks.
pub open spec fn group_rows_of(g: Group) -> Seq<RowView> {
    if g.1.len() == 0 {
        seq![]
    } else {
        let head = match g.0 {
            Some(l) => seq![RowView::Header(l, g.1.len() as int)],
            None => seq![],
        };
        head + Seq::new(g.1.len(), |i: int| RowView::Task(g.1[i]))
    }
}

/// The rows of the groups, one after the other.
pub open spec fn flatten(groups: Seq<Group>) -> Seq<RowView>
    decreases groups.len(),
{
    if groups.len() == 0 {
        seq![]
    } else {
        flatten(groups.drop_last()) + group_rows_of(groups.last())
    }
}

proof fn lemma_flatten_step(groups: Seq<Group>, k: int)
    requires
        0 <= k < groups.len(),
    ensures
        flatten(groups.take(k + 1)) == flatten(groups.take(k)) + group_rows_of(groups[k]),
{
    assert(groups.take(k + 1).drop_last() =~= groups.take(k));
}

/// The positions of the set flags.
fn positions_of(flags: &Vec<bool>) -> (out: Vec<usize>)
    ensures
        usize_seq_view(out@) == marked(flags@),
        forall|i: int| 0 <= i < out@.len() ==> #[trigger] out@[i] < flags@.len(),
{
    let mut out: Vec<usize> = Vec::new();
    let mut i: usize = 0;
    while i < flags.len()
        invariant
            i <= flags@.len(),
            usize_seq_view(out@) == marked(flags@.take(i as int)),
            forall|x: int| 0 <= x < out@.len() ==> #[trigger] out@[x] < i,
        decreases flags@.len() - i,
    {
        proof {
            assert(flags@.take(i + 1).drop_last() =~= flags@.take(i as int));
        }
        if flags[i] {
            let ghost before = out@;
            out.push(i);
            proof {
                assert(usize_seq_view(out@) =~= usize_seq_view(before).push(i as int));
            }
        }
        i = i + 1;
    }
    proof {
        assert(flags@.take(flags@.len() as int) =~= flags@);
    }
    out
}

/// The positions `0..n`.
fn all_positions(n: usize) -> (out: Vec<usize>)
    ensures
        usize_seq_view(out@) == every(n as int),
{
    let mut out: Vec<usize> = Vec::new();
    let mut i: usize = 0;
    while i < n
        invariant
            i <= n,
            out@.len() == i,
            forall|x: int| 0 <= x < i ==> #[trigger] out@[x] == x,
        decreases n - i,
    {
        out.push(i);
        i = i + 1;
    }
    proof {
        assert(usize_seq_view(out@) =~= every(n as int));
    }
    out
}

/// Appends the rows of one group.
fn push_group(out: &mut Vec<FlatRow>, label: Option<String>, ps: Vec<usize>)
    ensures
        rows_view(final(out)@) == rows_view(old(out)@) + group_rows_of((opt_view(label), usize_seq_view(ps@))),
{
    let ghost g: Group = (opt_view(label), usize_seq_view(ps@));
    if ps.len() == 0 {
        proof {
            assert(rows_view(out@) + group_rows_of(g) =~= rows_view(out@));
        }
        return;
    }
    let ghost start = rows_view(out@);
    let ghost head: Seq<RowView> = match g.0 {
        Some(l) => seq![RowView::Header(l, g.1.len() as int)],
        None => seq![],
    };
    match label {
        Some(l) => {
            out.push(FlatRow::Header(l, ps.len()));
        },
        None => {},
    }
    proof {
        assert(rows_view(out@) =~= start + head);
    }
    let ghost mid = rows_view(out@);
    let mut i: usize = 0;
    while i < ps.len()
        invariant
            i <= ps@.len(),
            g.1 == usize_seq_view(ps@),
            rows_view(out@).len() == mid.len() + i,
            forall|x: int| 0 <= x < mid.len() ==> #[trigger] rows_view(out@)[x] == mid[x],
            forall|x: int| 0 <= x < i ==> #[trigger] rows_view(out@)[mid.len() + x] == RowView::Task(ps@[x] as int),
        decreases ps@.len() - i,
    {
        let ghost before = out@;
        out.push(FlatRow::Task(ps[i]));
        proof {
            assert forall|x: int| 0 <= x < mid.len() implies #[trigger] rows_view(out@)[x] == mid[x] by {
                assert(rows_view(out@)[x] == row_view(out@[x]));
                assert(out@[x] == before[x]);
                assert(rows_view(before)[x] == row_view(before[x]));
            }
            assert forall|x: int| 0 <= x < i + 1 implies #[trigger] rows_view(out@)[mid.len() + x] == RowView::Task(ps@[x] as int) by {
                assert(rows_view(out@)[mid.len() + x] == row_view(out@[mid.len() + x]));
                if x < i {
                    assert(out@[mid.len() + x] == before[mid.len() + x]);
                    assert(rows_view(before)[mid.len() + x] == row_view(before[mid.len() + x]));
                }
            }
        }
        i = i + 1;
    }
    proof {
        let tail = Seq::new(g.1.len(), |x: int| RowView::Task(g.1[x]));
        assert forall|x: int| 0 <= x < rows_view(out@).len() implies #[trigger] rows_view(out@)[x] == (mid + tail)[x] by {
            if x >= mid.len() {
                let y = x - mid.len();
                assert(rows_view(out@)[mid.len() + y] == RowView::Task(ps@[y] as int));
                assert(g.1[y] == ps@[y] as int);
            }
        }
        assert(rows_view(out@) =~= mid + tail);
        assert(rows_view(out@) =~= start + group_rows_of(g));
    }
}

// ---------------------------------------------------------------------------
// Kanban
// ---------------------------------------------------------------------------

/// A task belongs to a kanban column: the "to do" column also takes the
/// inbox; the others take their own status.
pub open spec fn column_holds(col: Status, t: Todo) -> bool {
    let s = status_of(t);
    if col == Status::Todo {
        s == Status::Todo || s == Status::Inbox
    } else {
        s == col
    }
}

pub open spec fn column_flags(items: Seq<Todo>, col: Status) -> Seq<bool> {
    Seq::new(items.len(), |i: int| column_holds(col, items[i]))
}

/// The positions of the tasks a kanban column shows, in list order.
pub fn kanban_column(items: &[Todo], col: Status) -> (out: Vec<usize>)
    ensures
        usize_seq_view(out@) == marked(column_flags(items@, col)),
{
    let mut flags: Vec<bool> = Vec::new();
    let mut i: usize = 0;
    while i < items.len()
        invariant
            i <= items@.len(),
            flags@.len() == i,
            forall|x: int| 0 <= x < i ==> #[trigger] flags@[x] == column_holds(col, items@[x]),
        decreases items@.len() - i,
    {
        let s = task_status(&items[i]);
        let hold = if col == Status::Todo {
            s == Status::Todo || s == Status::Inbox
        } else {
            s == col
        };
        flags.push(hold);
        i = i + 1;
    }
    proof {
        assert(flags@ =~= column_flags(items@, col));
    }
    positions_of(&flags)
}

// ---------------------------------------------------------------------------
// Board grouping
// ---------------------------------------------------------------------------

fn owned(s: &str) -> (r: String)
    ensures
        r@ == s@,
{
    s.to_owned()
}

pub open spec fn no_project_flags(items: Seq<Todo>) -> Seq<bool> {
    Seq::new(items.len(), |i: int| items[i].project_id is None)
}

pub open spec fn project_flags(items: Seq<Todo>, id: Seq<char>) -> Seq<bool> {
    Seq::new(items.len(), |i: int| opt_view(items[i].project_id) == Some(id))
}

/// The task names a project that the list of projects does not hold.
pub open spec fn orphaned(ps: Seq<Project>, t: Todo) -> bool {
    match t.project_id {
        Some(p) => project_pos(ps, p@) is None,
        None => false,
    }
}

pub open spec fn orphan_flags(items: Seq<Todo>, ps: Seq<Project>) -> Seq<bool> {
    Seq::new(items.len(), |i: int| orphaned(ps, items[i]))
}

/// Grouping by project: the tasks without a project first, then each
/// project's tasks in the order of the projects, then the tasks whose
/// project is unknown.
pub open spec fn project_groups(items: Seq<Todo>, ps: Seq<Project>) -> Seq<Group> {
    seq![(Some("Без проекта"@), marked(no_project_flags(items)))]
        + Seq::new(ps.len(), |k: int| (Some(ps[k].title@), marked(project_flags(items, ps[k].id@))))
        + seq![(Some("Проект"@), marked(orphan_flags(items, ps)))]
}

fn project_grouped(items: &[Todo], projects: &Vec<Project>) -> (out: Vec<FlatRow>)
    ensures
        rows_view(out@) == flatten(project_groups(items@, projects@)),
{
    let ghost groups = project_groups(items@, projects@);
    let mut out: Vec<FlatRow> = Vec::new();
    let mut flags: Vec<bool> = Vec::new();
    let mut i: usize = 0;
    while i < items.len()
        invariant
            i <= items@.len(),
            flags@.len() == i,
            forall|x: int| 0 <= x < i ==> #[trigger] flags@[x] == (items@[x].project_id is None),
        decreases items@.len() - i,
    {
        flags.push(items[i].project_id.is_none());
        i = i + 1;
    }
    proof {
        assert(flags@ =~= no_project_flags(items@));
    }
    let ps = positions_of(&flags);
    push_group(&mut out, Some(owned("Без проекта")), ps);
    proof {
        lemma_flatten_step(groups, 0);
        assert(groups.take(0) =~= Seq::<Group>::empty());
        assert(groups[0] == (Some("Без проекта"@), marked(no_project_flags(items@))));
    }
    let mut k: usize = 0;
    while k < projects.len()
        invariant
            k <= projects@.len(),
            groups == project_groups(items@, projects@),
            rows_view(out@) == flatten(groups.take(k + 1)),
        decreases projects@.len() - k,
    {
        let mut flags: Vec<bool> = Vec::new();
        let mut i: usize = 0;
        while i < items.len()
            invariant
                k < projects@.len(),
                i <= items@.len(),
                flags@.len() == i,
                forall|x: int| 0 <= x < i ==> #[trigger] flags@[x] == (opt_view(items@[x].project_id) == Some(projects@[k as int].id@)),
            decreases items@.len() - i,
        {
            let hold = match &items[i].project_id {
                Some(p) => str_equal(p.as_str(), projects[k].id.as_str()),
                None => false,
            };
            flags.push(hold);
            i = i + 1;
        }
        proof {
            assert(flags@ =~= project_flags(items@, projects@[k as int].id@));
        }
        let ps = positions_of(&flags);
        push_group(&mut out, Some(projects[k].title.clone()), ps);
        proof {
            lemma_flatten_step(groups, k + 1);
            assert(groups[k + 1] == (Some(projects@[k as int].title@), marked(project_flags(items@, projects@[k as int].id@))));
        }
        k = k + 1;
    }
    let mut flags: Vec<bool> = Vec::new();
    let mut i: usize = 0;
    while i < items.len()
        invariant
            i <= items@.len(),
            flags@.len() == i,
            forall|x: int| 0 <= x < i ==> #[trigger] flags@[x] == orphaned(projects@, items@[x]),
        decreases items@.len() - i,
    {
        let hold = match &items[i].project_id {
            Some(p) => find_project(projects, p.as_str()).is_none(),
            None => false,
        };
        flags.push(hold);
        i = i + 1;
    }
    proof {
        assert(flags@ =~= orphan_flags(items@, projects@));
    }
    let ps = positions_of(&flags);
    push_group(&mut out, Some(owned("Проект")), ps);
    proof {
        let n: int = projects@.len() as int + 1;
        lemma_flatten_step(groups, n);
        assert(groups[n] == (Some("Проект"@), marked(orphan_flags(items@, projects@))));
        assert(groups.take(n + 1) =~= groups);
    }
    out
}

/// A task's day key, by which the board groups by date.
pub open spec fn day_of(t: Todo) -> Option<Seq<char>> {
    task_date_of(t).0
}

/// The day keys of the tasks, each once, in order of first appearance.
pub open spec fn date_keys(items: Seq<Todo>) -> Seq<Option<Seq<char>>>
    decreases items.len(),
{
    if items.len() == 0 {
        seq![]
    } else {
        let ks = date_keys(items.drop_last());
        let k = day_of(items.last());
        if ks.contains(k) {
            ks
        } else {
            ks.push(k)
        }
    }
}

/// The text a day key is ordered by: the key, or "9999" for no day.
pub open spec fn late_text(k: Option<Seq<char>>) -> Seq<char> {
    match k {
        Some(d) => d,
        None => "9999"@,
    }
}

pub open spec fn key_ranks(ks: Seq<Option<Seq<char>>>) -> Seq<Rank> {
    Seq::new(ks.len(), |i: int| Rank { text: encode_utf8(late_text(ks[i])), desc: false, first: 0, second: 0 })
}

pub open spec fn key_flags(items: Seq<Todo>, k: Option<Seq<char>>) -> Seq<bool> {
    Seq::new(items.len(), |i: int| day_of(items[i]) == k)
}

/// The date groups in the order `q` puts the keys in.
pub open spec fn date_groups(items: Seq<Todo>, ks: Seq<Option<Seq<char>>>, q: Seq<int>, today: Seq<char>) -> Seq<Group> {
    Seq::new(q.len(), |j: int| (Some(date_group_text(ks[q[j]], today)), marked(key_flags(items, ks[q[j]]))))
}

/// Grouping by date: one group per day key, the keys stably sorted by their
/// text (no day counting as "9999"), each captioned with its date label.
pub open spec fn date_grouped(items: Seq<Todo>, today: Seq<char>, rows: Seq<RowView>) -> bool {
    let ks = date_keys(items);
    exists|q: Seq<int>|
        sorted_selection(key_ranks(ks), all_chosen(ks.len()), q) && rows == #[trigger] flatten(
            date_groups(items, ks, q, today),
        )
}

pub open spec fn opt_views(ks: Seq<Option<String>>) -> Seq<Option<Seq<char>>> {
    ks.map_values(|k: Option<String>| opt_view(k))
}

fn same_key(a: &Option<String>, b: &Option<String>) -> (r: bool)
    ensures
        r == (opt_view(*a) == opt_view(*b)),
{
    match (a, b) {
        (Some(x), Some(y)) => str_equal(x.as_str(), y.as_str()),
        (None, None) => true,
        _ => false,
    }
}

fn has_key(keys: &Vec<Option<String>>, k: &Option<String>) -> (r: bool)
    ensures
        r == opt_views(keys@).contains(opt_view(*k)),
{
    let mut j: usize = 0;
    while j < keys.len()
        invariant
            j <= keys@.len(),
            forall|x: int| 0 <= x < j ==> opt_views(keys@)[x] != opt_view(*k),
        decreases keys@.len() - j,
    {
        if same_key(&keys[j], k) {
            proof {
                assert(opt_views(keys@)[j as int] == opt_view(*k));
            }
            return true;
        }
        j = j + 1;
    }
    false
}

fn copy_key(k: &Option<String>) -> (r: Option<String>)
    ensures
        opt_view(r) == opt_view(*k),
{
    match k {
        Some(s) => Some(s.clone()),
        None => None,
    }
}

fn date_grouped_rows(items: &[Todo], today: &str) -> (out: Vec<FlatRow>)
    requires
        forall|x: int| 0 <= x < items@.len() ==> #[trigger] day_dates_cuttable(items@[x]),
    ensures
        date_grouped(items@, today@, rows_view(out@)),
{
    let mut keys: Vec<Option<String>> = Vec::new();
    let mut i: usize = 0;
    while i < items.len()
        invariant
            forall|x: int| 0 <= x < items@.len() ==> #[trigger] day_dates_cuttable(items@[x]),
            i <= items@.len(),
            opt_views(keys@) == date_keys(items@.take(i as int)),
        decreases items@.len() - i,
    {
        proof {
            assert(items@.take(i + 1).drop_last() =~= items@.take(i as int));
            assert(day_dates_cuttable(items@[i as int]));
        }
        let (k, _conflict) = task_date(&items[i]);
        if !has_key(&keys, &k) {
            let ghost before = keys@;
            keys.push(k);
            proof {
                assert(opt_views(keys@) =~= opt_views(before).push(day_of(items@[i as int])));
            }
        }
        i = i + 1;
    }
    proof {
        assert(items@.take(items@.len() as int) =~= items@);
    }
    let ghost ks = date_keys(items@);
    let mut okeys: Vec<OrderKey> = Vec::new();
    let mut chosen: Vec<bool> = Vec::new();
    let mut j: usize = 0;
    while j < keys.len()
        invariant
            j <= keys@.len(),
            ks == opt_views(keys@),
            okeys@.len() == j,
            chosen@.len() == j,
            forall|x: int| 0 <= x < j ==> #[trigger] chosen@[x],
            forall|x: int| 0 <= x < j ==> (#[trigger] okeys@[x]).rank() == key_ranks(ks)[x],
        decreases keys@.len() - j,
    {
        let text = match &keys[j] {
            Some(d) => bytes_of(d.as_str()),
            None => bytes_of("9999"),
        };
        proof {
            assert(ks[j as int] == opt_view(keys@[j as int]));
        }
        okeys.push(OrderKey { text, desc: false, first: 0, second: 0 });
        chosen.push(true);
        j = j + 1;
    }
    proof {
        assert(ranks_of(okeys@) =~= key_ranks(ks));
        assert(chosen@ =~= all_chosen(ks.len()));
        assert forall|a: int, b: int| 0 <= a < ranks_of(okeys@).len() && 0 <= b < ranks_of(okeys@).len() implies #[trigger] ranks_of(okeys@)[a].desc == #[trigger] ranks_of(okeys@)[b].desc by {
            assert(ranks_of(okeys@)[a] == key_ranks(ks)[a]);
            assert(ranks_of(okeys@)[b] == key_ranks(ks)[b]);
        }
    }
    let q = sort_selected(&okeys, &chosen);
    let ghost qv = usize_seq_view(q@);
    let ghost groups = date_groups(items@, ks, qv, today@);
    let mut out: Vec<FlatRow> = Vec::new();
    let mut g: usize = 0;
    proof {
        assert(groups.take(0) =~= Seq::<Group>::empty());
    }
    while g < q.len()
        invariant
            forall|x: int| 0 <= x < items@.len() ==> #[trigger] day_dates_cuttable(items@[x]),
            g <= q@.len(),
            ks == opt_views(keys@),
            qv == usize_seq_view(q@),
            groups == date_groups(items@, ks, qv, today@),
            sorted_selection(key_ranks(ks), all_chosen(ks.len()), qv),
            rows_view(out@) == flatten(groups.take(g as int)),
        decreases q@.len() - g,
    {
        proof {
            assert(qv[g as int] == q@[g as int] as int);
            assert(0 <= qv[g as int] < key_ranks(ks).len());
        }
        let key = &keys[q[g]];
        let label = match key {
            Some(d) => date_group_label_on(Some(d.as_str()), today),
            None => date_group_label_on(None, today),
        };
        let mut flags: Vec<bool> = Vec::new();
        let mut i: usize = 0;
        while i < items.len()
            invariant
                forall|x: int| 0 <= x < items@.len() ==> #[trigger] day_dates_cuttable(items@[x]),
                i <= items@.len(),
                flags@.len() == i,
                forall|x: int| 0 <= x < i ==> #[trigger] flags@[x] == (day_of(items@[x]) == opt_view(*key)),
            decreases items@.len() - i,
        {
            proof {
                assert(day_dates_cuttable(items@[i as int]));
            }
            let (k, _conflict) = task_date(&items[i]);
            flags.push(same_key(&k, key));
            i = i + 1;
        }
        proof {
            assert(ks[qv[g as int]] == opt_view(*key));
            assert(flags@ =~= key_flags(items@, ks[qv[g as int]]));
        }
        let ps = positions_of(&flags);
        push_group(&mut out, Some(label), ps);
        proof {
            lemma_flatten_step(groups, g as int);
        }
        g = g + 1;
    }
    proof {
        assert(groups.take(q@.len() as int) =~= groups);
    }
    out
}

/// The rows of a board list under a grouping, captions of date groups on
/// the given today's key.
pub open spec fn grouped_rows(items: Seq<Todo>, ps: Seq<Project>, group: GroupKey, today: Seq<char>, rows: Seq<RowView>) -> bool {
    match group {
        GroupKey::Flat => rows == flatten(seq![(None, every(items.len() as int))]),
        GroupKey::Project => rows == flatten(project_groups(items, ps)),
        GroupKey::Date => date_grouped(items, today, rows),
    }
}

/// The rows of an ordered board list under the chosen grouping, on the
/// given day.
pub fn group_rows_on(items: &[Todo], projects: &Vec<Project>, group: GroupKey, today: &str) -> (out: Vec<FlatRow>)
    requires
        group == GroupKey::Date ==> forall|i: int| 0 <= i < items@.len() ==> #[trigger] day_dates_cuttable(items@[i]),
    ensures
        grouped_rows(items@, projects@, group, today@, rows_view(out@)),
{
    match group {
        GroupKey::Flat => {
            let mut out: Vec<FlatRow> = Vec::new();
            let ps = all_positions(items.len());
            push_group(&mut out, None, ps);
            proof {
                let gs: Seq<Group> = seq![(None, every(items@.len() as int))];
                lemma_flatten_step(gs, 0);
                assert(gs.take(0) =~= Seq::<Group>::empty());
                assert(gs.take(1) =~= gs);
                assert(rows_view(Seq::<FlatRow>::empty()) =~= Seq::<RowView>::empty());
            }
            out
        },
        GroupKey::Project => project_grouped(items, projects),
        GroupKey::Date => date_grouped_rows(items, today),
    }
}

/// The rows of an ordered board list under the chosen grouping (date
/// captions on today's date).
pub fn group_rows(items: &[Todo], projects: &Vec<Project>, group: GroupKey) -> (out: Vec<FlatRow>)
    requires
        group == GroupKey::Date ==> forall|i: int| 0 <= i < items@.len() ==> #[trigger] day_dates_cuttable(items@[i]),
    ensures
        exists|d: CivilDate| valid_date(d) && grouped_rows(items@, projects@, group, key_text(d), rows_view(out@)),
{
    let today = today_key();
    group_rows_on(items, projects, group, today.as_str())
}

// ---------------------------------------------------------------------------
// Page rows
// ---------------------------------------------------------------------------

/// The completed projects, in order.
pub open spec fn archived_projects(ps: Seq<Project>) -> Seq<Project>
    decreases ps.len(),
{
    if ps.len() == 0 {
        seq![]
    } else {
        let a = archived_projects(ps.drop_last());
        if ps.last().status == 2 {
            a.push(ps.last())
        } else {
            a
        }
    }
}

/// The logbook: a "Задачи" group of its tasks, then a "Проекты" caption and
/// the completed projects; each part only where it is not empty.
pub open spec fn logbook_view(n: int, ps: Seq<Project>) -> Seq<RowView> {
    let a = archived_projects(ps);
    group_rows_of((Some("Задачи"@), every(n))) + if a.len() == 0 {
        seq![]
    } else {
        seq![RowView::Header("Проекты"@, a.len() as int)] + Seq::new(a.len(), |i: int| RowView::Archived(a[i]))
    }
}

/// The rows of the logbook page for its tasks and the projects.
pub fn logbook_rows(items: &[Todo], projects: &Vec<Project>) -> (out: Vec<FlatRow>)
    ensures
        rows_view(out@) == logbook_view(items@.len() as int, projects@),
{
    let mut out: Vec<FlatRow> = Vec::new();
    let ps = all_positions(items.len());
    push_group(&mut out, Some(owned("Задачи")), ps);
    proof {
        assert(rows_view(Seq::<FlatRow>::empty()) =~= Seq::<RowView>::empty());
        assert(Seq::<RowView>::empty() + group_rows_of((Some("Задачи"@), every(items@.len() as int)))
            =~= group_rows_of((Some("Задачи"@), every(items@.len() as int))));
    }
    let ghost tasks = rows_view(out@);
    let mut arch: Vec<Project> = Vec::new();
    let mut k: usize = 0;
    while k < projects.len()
        invariant
            k <= projects@.len(),
            arch@ == archived_projects(projects@.take(k as int)),
        decreases projects@.len() - k,
    {
        proof {
            assert(projects@.take(k + 1).drop_last() =~= projects@.take(k as int));
        }
        if projects[k].status == 2 {
            arch.push(projects[k].copy());
        }
        k = k + 1;
    }
    proof {
        assert(projects@.take(projects@.len() as int) =~= projects@);
    }
    if arch.len() == 0 {
        proof {
            assert(tasks + Seq::<RowView>::empty() =~= tasks);
        }
        return out;
    }
    out.push(FlatRow::Header(owned("Проекты"), arch.len()));
    let ghost mid = rows_view(out@);
    proof {
        assert(mid =~= tasks + seq![RowView::Header("Проекты"@, arch@.len() as int)]);
    }
    let mut j: usize = 0;
    while j < arch.len()
        invariant
            j <= arch@.len(),
            rows_view(out@) == mid + Seq::new(j as nat, |i: int| RowView::Archived(arch@[i])),
        decreases arch@.len() - j,
    {
        let ghost before = out@;
        out.push(FlatRow::ArchivedProject(arch[j].copy()));
        proof {
            assert(rows_view(out@) =~= rows_view(before).push(RowView::Archived(arch@[j as int])));
            assert(Seq::new((j + 1) as nat, |i: int| RowView::Archived(arch@[i])) =~= Seq::new(j as nat, |i: int| RowView::Archived(arch@[i])).push(RowView::Archived(arch@[j as int])));
        }
        j = j + 1;
    }
    proof {
        let a = archived_projects(projects@);
        assert(rows_view(out@) =~= tasks + (seq![RowView::Header("Проекты"@, a.len() as int)] + Seq::new(a.len(), |i: int| RowView::Archived(a[i]))));
    }
    out
}

/// The project a project page lists: the id, where a project has it; a
/// page for an unknown id lists the tasks without a project.
pub open spec fn page_project(ps: Seq<Project>, id: Seq<char>) -> Option<Seq<char>> {
    if project_pos(ps, id) is Some {
        Some(id)
    } else {
        None
    }
}

/// A task the project page shows: in the page's project, not in the trash
/// and not archived.
pub open spec fn on_project_page(ps: Seq<Project>, id: Seq<char>, t: Todo, today: Seq<char>) -> bool {
    &&& opt_view(t.project_id) == page_project(ps, id)
    &&& !t.is_trashed
    &&& !archived(t, today)
}

pub open spec fn project_page_flags(todos: Seq<Todo>, ps: Seq<Project>, id: Seq<char>, today: Seq<char>) -> Seq<bool> {
    Seq::new(todos.len(), |i: int| on_project_page(ps, id, todos[i], today))
}

/// The positions of the tasks a project page shows on the given day.
pub fn project_page_items(todos: &[Todo], projects: &Vec<Project>, id: &str, today: &str) -> (out: Vec<usize>)
    requires
        forall|x: int| 0 <= x < todos@.len() ==> #[trigger] done_dates_cuttable(todos@[x]),
    ensures
        usize_seq_view(out@) == marked(project_page_flags(todos@, projects@, id@, today@)),
{
    let known = find_project(projects, id).is_some();
    let mut flags: Vec<bool> = Vec::new();
    let mut i: usize = 0;
    while i < todos.len()
        invariant
            forall|x: int| 0 <= x < todos@.len() ==> #[trigger] done_dates_cuttable(todos@[x]),
            known == (project_pos(projects@, id@) is Some),
            i <= todos@.len(),
            flags@.len() == i,
            forall|x: int| 0 <= x < i ==> #[trigger] flags@[x] == on_project_page(projects@, id@, todos@[x], today@),
        decreases todos@.len() - i,
    {
        let t = &todos[i];
        proof {
            assert(done_dates_cuttable(todos@[i as int]));
        }
        let member = match &t.project_id {
            Some(p) => known && str_equal(p.as_str(), id),
            None => !known,
        };
        let hold = member && !t.is_trashed && !is_archived(t, today);
        flags.push(hold);
        i = i + 1;
    }
    proof {
        assert(flags@ =~= project_page_flags(todos@, projects@, id@, today@));
    }
    positions_of(&flags)
}

/// A task the recurring page shows: it repeats, is not in the trash and is
/// not archived.
pub open spec fn on_recurring_page(t: Todo, today: Seq<char>) -> bool {
    &&& t.recurrence is Some
    &&& !t.is_trashed
    &&& !archived(t, today)
}

pub open spec fn recurring_flags(todos: Seq<Todo>, today: Seq<char>) -> Seq<bool> {
    Seq::new(todos.len(), |i: int| on_recurring_page(todos[i], today))
}

/// The positions of the tasks the recurring page shows on the given day.
pub fn recurring_items(todos: &[Todo], today: &str) -> (out: Vec<usize>)
    requires
        forall|x: int| 0 <= x < todos@.len() ==> #[trigger] done_dates_cuttable(todos@[x]),
    ensures
        usize_seq_view(out@) == marked(recurring_flags(todos@, today@)),
{
    let mut flags: Vec<bool> = Vec::new();
    let mut i: usize = 0;
    while i < todos.len()
        invariant
            forall|x: int| 0 <= x < todos@.len() ==> #[trigger] done_dates_cuttable(todos@[x]),
            i <= todos@.len(),
            flags@.len() == i,
            forall|x: int| 0 <= x < i ==> #[trigger] flags@[x] == on_recurring_page(todos@[x], today@),
        decreases todos@.len() - i,
    {
        let t = &todos[i];
        proof {
            assert(done_dates_cuttable(todos@[i as int]));
        }
        flags.push(t.recurrence.is_some() && !t.is_trashed && !is_archived(t, today));
        i = i + 1;
    }
    proof {
        assert(flags@ =~= recurring_flags(todos@, today@));
    }
    positions_of(&flags)
}

/// A task a calendar day shows: not in the trash, with that day as its day.
pub open spec fn on_day(t: Todo, day: Seq<char>) -> bool {
    !t.is_trashed && day_of(t) == Some(day)
}

pub open spec fn day_flags(todos: Seq<Todo>, day: Seq<char>) -> Seq<bool> {
    Seq::new(todos.len(), |i: int| on_day(todos[i], day))
}

/// The positions of the tasks a calendar day shows.
pub fn day_items(todos: &[Todo], day: &str) -> (out: Vec<usize>)
    requires
        forall|i: int| 0 <= i < todos@.len() ==> #[trigger] day_dates_cuttable(todos@[i]),
    ensures
        usize_seq_view(out@) == marked(day_flags(todos@, day@)),
{
    let mut flags: Vec<bool> = Vec::new();
    let mut i: usize = 0;
    while i < todos.len()
        invariant
            forall|x: int| 0 <= x < todos@.len() ==> #[trigger] day_dates_cuttable(todos@[x]),
            i <= todos@.len(),
            flags@.len() == i,
            forall|x: int| 0 <= x < i ==> #[trigger] flags@[x] == on_day(todos@[x], day@),
        decreases todos@.len() - i,
    {
        let t = &todos[i];
        proof {
            assert(day_dates_cuttable(todos@[i as int]));
        }
        let hold = if t.is_trashed {
            false
        } else {
            match task_date(t).0 {
                Some(d) => str_equal(d.as_str(), day),
                None => false,
            }
        };
        flags.push(hold);
        i = i + 1;
    }
    proof {
        assert(flags@ =~= day_flags(todos@, day@));
    }
    positions_of(&flags)
}

pub open spec fn event_flags(events: Seq<CalEvent>, day: Seq<char>) -> Seq<bool> {
    Seq::new(events.len(), |i: int| date_part(events[i].starts_at@) == Some(day))
}

/// The positions of the events a calendar day shows: those starting that day.
pub fn day_events(events: &[CalEvent], day: &str) -> (out: Vec<usize>)
    requires
        forall|i: int| 0 <= i < events@.len() ==> date_cuttable(#[trigger] events@[i].starts_at@),
    ensures
        usize_seq_view(out@) == marked(event_flags(events@, day@)),
{
    let mut flags: Vec<bool> = Vec::new();
    let mut i: usize = 0;
    while i < events.len()
        invariant
            forall|x: int| 0 <= x < events@.len() ==> date_cuttable(#[trigger] events@[x].starts_at@),
            i <= events@.len(),
            flags@.len() == i,
            forall|x: int| 0 <= x < i ==> #[trigger] flags@[x] == (date_part(events@[x].starts_at@) == Some(day@)),
        decreases events@.len() - i,
    {
        let start = Some(events[i].starts_at.clone());
        proof {
            assert(date_cuttable(events@[i as int].starts_at@));
        }
        let hold = match date_only(&start) {
            Some(d) => str_equal(d.as_str(), day),
            None => false,
        };
        flags.push(hold);
        i = i + 1;
    }
    proof {
        assert(flags@ =~= event_flags(events@, day@));
    }
    positions_of(&flags)
}

pub open spec fn open_project_flags(ps: Seq<Project>) -> Seq<bool> {
    Seq::new(ps.len(), |i: int| ps[i].status == 0)
}

/// The positions of the projects the sidebar lists: the active ones.
pub fn sidebar_projects(projects: &Vec<Project>) -> (out: Vec<usize>)
    ensures
        usize_seq_view(out@) == marked(open_project_flags(projects@)),
{
    let mut flags: Vec<bool> = Vec::new();
    let mut i: usize = 0;
    while i < projects.len()
        invariant
            i <= projects@.len(),
            flags@.len() == i,
            forall|x: int| 0 <= x < i ==> #[trigger] flags@[x] == (projects@[x].status == 0),
        decreases projects@.len() - i,
    {
        flags.push(projects[i].status == 0);
        i = i + 1;
    }
    proof {
        assert(flags@ =~= open_project_flags(projects@));
    }
    positions_of(&flags)
}

// ---------------------------------------------------------------------------
// Which tasks the rows show
// ---------------------------------------------------------------------------

/// The task positions among the rows, in order.
pub open spec fn tasks_in(rows: Seq<RowView>) -> Seq<int>
    decreases rows.len(),
{
    if rows.len() == 0 {
        seq![]
    } else {
        let p = tasks_in(rows.drop_last());
        match rows.last() {
            RowView::Task(i) => p.push(i),
            _ => p,
        }
    }
}

/// Each of the positions `0..n` occurs exactly once, and nothing else.
pub open spec fn exactly_once(s: Seq<int>, n: int) -> bool {
    &&& forall|i: int| 0 <= i < s.len() ==> 0 <= #[trigger] s[i] < n
    &&& forall|a: int, b: int| 0 <= a < b < s.len() ==> #[trigger] s[a] != #[trigger] s[b]
    &&& forall|i: int| 0 <= i < n ==> #[trigger] s.contains(i)
}

/// The positions of the groups, one group after the other.
pub open spec fn joined(gs: Seq<Group>) -> Seq<int>
    decreases gs.len(),
{
    if gs.len() == 0 {
        seq![]
    } else {
        joined(gs.drop_last()) + gs.last().1
    }
}

pub proof fn lemma_tasks_in_add(a: Seq<RowView>, b: Seq<RowView>)
    ensures
        tasks_in(a + b) == tasks_in(a) + tasks_in(b),
    decreases b.len(),
{
    if b.len() == 0 {
        assert(a + b =~= a);
        assert(tasks_in(a) + tasks_in(b) =~= tasks_in(a));
    } else {
        assert((a + b).drop_last() =~= a + b.drop_last());
        lemma_tasks_in_add(a, b.drop_last());
        match b.last() {
            RowView::Task(i) => {
                assert(tasks_in(a) + tasks_in(b) =~= (tasks_in(a) + tasks_in(b.drop_last())).push(i));
            },
            _ => {},
        }
    }
}

proof fn lemma_tasks_of_tasks(ps: Seq<int>)
    ensures
        tasks_in(Seq::new(ps.len(), |i: int| RowView::Task(ps[i]))) == ps,
    decreases ps.len(),
{
    if ps.len() == 0 {
        assert(ps =~= seq![]);
    } else {
        let rows = Seq::new(ps.len(), |i: int| RowView::Task(ps[i]));
        assert(rows.drop_last() =~= Seq::new(ps.drop_last().len(), |i: int| RowView::Task(ps.drop_last()[i])));
        lemma_tasks_of_tasks(ps.drop_last());
        assert(ps.drop_last().push(ps.last()) =~= ps);
    }
}

pub proof fn lemma_tasks_of_group(g: Group)
    ensures
        tasks_in(group_rows_of(g)) == g.1,
{
    if g.1.len() == 0 {
        assert(g.1 =~= seq![]);
    } else {
        let head: Seq<RowView> = match g.0 {
            Some(l) => seq![RowView::Header(l, g.1.len() as int)],
            None => seq![],
        };
        lemma_tasks_in_add(head, Seq::new(g.1.len(), |i: int| RowView::Task(g.1[i])));
        lemma_tasks_of_tasks(g.1);
        if head.len() == 1 {
            assert(head.drop_last() =~= Seq::<RowView>::empty());
            assert(tasks_in(head.drop_last()) =~= Seq::<int>::empty());
        } else {
            assert(head =~= Seq::<RowView>::empty());
        }
        assert(tasks_in(head) =~= Seq::<int>::empty());
        assert(Seq::<int>::empty() + g.1 =~= g.1);
    }
}

pub proof fn lemma_tasks_of_flatten(gs: Seq<Group>)
    ensures
        tasks_in(flatten(gs)) == joined(gs),
    decreases gs.len(),
{
    if gs.len() > 0 {
        lemma_tasks_of_flatten(gs.drop_last());
        lemma_tasks_in_add(flatten(gs.drop_last()), group_rows_of(gs.last()));
        lemma_tasks_of_group(gs.last());
    }
}

/// `marked` lists exactly the set positions, increasing.
pub proof fn lemma_marked(flags: Seq<bool>)
    ensures
        forall|i: int| 0 <= i < marked(flags).len() ==> 0 <= #[trigger] marked(flags)[i] < flags.len() && flags[marked(flags)[i]],
        forall|a: int, b: int| 0 <= a < b < marked(flags).len() ==> #[trigger] marked(flags)[a] < #[trigger] marked(flags)[b],
        forall|i: int| 0 <= i < flags.len() && #[trigger] flags[i] ==> marked(flags).contains(i),
    decreases flags.len(),
{
    if flags.len() > 0 {
        let f = flags.drop_last();
        lemma_marked(f);
        let p = marked(f);
        assert forall|i: int| 0 <= i < flags.len() && #[trigger] flags[i] implies marked(flags).contains(i) by {
            if i < flags.len() - 1 {
                assert(f[i] == flags[i]);
                let k = choose|k: int| 0 <= k < p.len() && p[k] == i;
                assert(marked(flags)[k] == i);
            } else {
                assert(marked(flags)[p.len() as int] == i);
            }
        }
    }
}

/// `v` is a position of one of the groups.
pub open spec fn in_some_group(gs: Seq<Group>, v: int) -> bool {
    exists|j: int, x: int| 0 <= j < gs.len() && 0 <= x < gs[j].1.len() && #[trigger] gs[j].1[x] == v
}

/// The positions of groups that are each without repeats and pairwise
/// disjoint occur once each in the joined sequence.
pub proof fn lemma_joined(gs: Seq<Group>, n: int)
    requires
        forall|j: int, x: int| 0 <= j < gs.len() && 0 <= x < gs[j].1.len() ==> 0 <= #[trigger] gs[j].1[x] < n,
        forall|j: int, a: int, b: int| 0 <= j < gs.len() && 0 <= a < b < gs[j].1.len() ==> #[trigger] gs[j].1[a] != #[trigger] gs[j].1[b],
        forall|j: int, k: int, a: int, b: int| 0 <= j < k < gs.len() && 0 <= a < gs[j].1.len() && 0 <= b < gs[k].1.len() ==> #[trigger] gs[j].1[a] != #[trigger] gs[k].1[b],
    ensures
        forall|i: int| 0 <= i < joined(gs).len() ==> 0 <= #[trigger] joined(gs)[i] < n,
        forall|a: int, b: int| 0 <= a < b < joined(gs).len() ==> #[trigger] joined(gs)[a] != #[trigger] joined(gs)[b],
        forall|j: int, x: int| 0 <= j < gs.len() && 0 <= x < gs[j].1.len() ==> joined(gs).contains(#[trigger] gs[j].1[x]),
        forall|i: int| 0 <= i < joined(gs).len() ==> in_some_group(gs, #[trigger] joined(gs)[i]),
    decreases gs.len(),
{
    if gs.len() > 0 {
        let init = gs.drop_last();
        lemma_joined(init, n);
        let last = gs.last().1;
        let j0 = joined(init);
        let s = joined(gs);
        assert(s =~= j0 + last);
        let m = gs.len() - 1;
        assert forall|i: int| 0 <= i < s.len() implies 0 <= #[trigger] s[i] < n by {
            if i >= j0.len() {
                assert(s[i] == gs[m].1[i - j0.len()]);
            }
        }
        assert forall|i: int| 0 <= i < s.len() implies in_some_group(gs, #[trigger] s[i]) by {
            if i >= j0.len() {
                assert(gs[m].1[i - j0.len()] == s[i]);
            } else {
                assert(s[i] == j0[i]);
                assert(in_some_group(init, j0[i]));
                let (j, x) = choose|j: int, x: int| 0 <= j < init.len() && 0 <= x < init[j].1.len() && #[trigger] init[j].1[x] == j0[i];
                assert(gs[j].1[x] == s[i]);
            }
        }
        assert forall|a: int, b: int| 0 <= a < b < s.len() implies #[trigger] s[a] != #[trigger] s[b] by {
            if b < j0.len() {
                assert(s[a] == j0[a] && s[b] == j0[b]);
            } else if a >= j0.len() {
                assert(s[a] == gs[m].1[a - j0.len()]);
                assert(s[b] == gs[m].1[b - j0.len()]);
            } else {
                assert(s[a] == j0[a]);
                assert(in_some_group(init, j0[a]));
                let (j, x) = choose|j: int, x: int| 0 <= j < init.len() && 0 <= x < init[j].1.len() && #[trigger] init[j].1[x] == j0[a];
                assert(gs[j].1[x] == s[a]);
                assert(s[b] == gs[m].1[b - j0.len()]);
            }
        }
        assert forall|j: int, x: int| 0 <= j < gs.len() && 0 <= x < gs[j].1.len() implies s.contains(#[trigger] gs[j].1[x]) by {
            if j < m {
                assert(init[j] == gs[j]);
                assert(j0.contains(init[j].1[x]));
                let k = choose|k: int| 0 <= k < j0.len() && j0[k] == init[j].1[x];
                assert(s[k] == j0[k]);
            } else {
                assert(s[j0.len() + x] == gs[m].1[x]);
            }
        }
    }
}

/// Some group's flags take position `v`.
pub open spec fn covered(fs: Seq<Seq<bool>>, v: int) -> bool {
    exists|j: int| 0 <= j < fs.len() && #[trigger] fs[j][v]
}

/// Groups made of the set flags of flag rows that no two set at one
/// position, and that together set every position, show each position once.
pub proof fn lemma_groups_once(gs: Seq<Group>, fs: Seq<Seq<bool>>, n: int)
    requires
        gs.len() == fs.len(),
        forall|j: int| 0 <= j < fs.len() ==> (#[trigger] fs[j]).len() == n && gs[j].1 == marked(fs[j]),
        forall|j: int, k: int, v: int| 0 <= j < k < fs.len() && 0 <= v < n ==> !(#[trigger] fs[j][v] && #[trigger] fs[k][v]),
        forall|v: int| 0 <= v < n ==> #[trigger] covered(fs, v),
    ensures
        exactly_once(joined(gs), n),
{
    assert forall|j: int| 0 <= j < gs.len() implies #[trigger] gs[j].1 == marked(fs[j]) by {
        assert(fs[j].len() == n);
    }
    assert forall|j: int, x: int| 0 <= j < gs.len() && 0 <= x < gs[j].1.len() implies 0 <= #[trigger] gs[j].1[x] < n && fs[j][gs[j].1[x]] by {
        assert(fs[j].len() == n);
        lemma_marked(fs[j]);
    }
    assert forall|j: int, a: int, b: int| 0 <= j < gs.len() && 0 <= a < b < gs[j].1.len() implies #[trigger] gs[j].1[a] != #[trigger] gs[j].1[b] by {
        assert(fs[j].len() == n);
        lemma_marked(fs[j]);
    }
    assert forall|j: int, k: int, a: int, b: int| 0 <= j < k < gs.len() && 0 <= a < gs[j].1.len() && 0 <= b < gs[k].1.len() implies #[trigger] gs[j].1[a] != #[trigger] gs[k].1[b] by {
        let v = gs[j].1[a];
        assert(0 <= v < n && fs[j][v]);
        assert(0 <= gs[k].1[b] < n && fs[k][gs[k].1[b]]);
        if gs[k].1[b] == v {
            assert(!(fs[j][v] && fs[k][v]));
        }
    }
    lemma_joined(gs, n);
    let s = joined(gs);
    assert forall|v: int| 0 <= v < n implies #[trigger] s.contains(v) by {
        assert(covered(fs, v));
        let j = choose|j: int| 0 <= j < fs.len() && #[trigger] fs[j][v];
        assert(fs[j].len() == n);
        lemma_marked(fs[j]);
        assert(marked(fs[j]).contains(v));
        let x = choose|x: int| 0 <= x < marked(fs[j]).len() && marked(fs[j])[x] == v;
        assert(gs[j].1[x] == v);
        assert(s.contains(gs[j].1[x]));
    }
}

/// The date keys hold no key twice and hold the key of every task.
pub proof fn lemma_date_keys(items: Seq<Todo>)
    ensures
        forall|a: int, b: int| 0 <= a < b < date_keys(items).len() ==> #[trigger] date_keys(items)[a] != #[trigger] date_keys(items)[b],
        forall|i: int| 0 <= i < items.len() ==> date_keys(items).contains(day_of(#[trigger] items[i])),
    decreases items.len(),
{
    if items.len() > 0 {
        let init = items.drop_last();
        lemma_date_keys(init);
        let ks0 = date_keys(init);
        let k = day_of(items.last());
        let ks = date_keys(items);
        assert forall|i: int| 0 <= i < items.len() implies ks.contains(day_of(#[trigger] items[i])) by {
            if i < items.len() - 1 {
                assert(init[i] == items[i]);
                assert(ks0.contains(day_of(init[i])));
                let m = choose|m: int| 0 <= m < ks0.len() && ks0[m] == day_of(init[i]);
                assert(ks[m] == ks0[m]);
            } else if ks0.contains(k) {
            } else {
                assert(ks[ks0.len() as int] == k);
            }
        }
        if !ks0.contains(k) {
            assert forall|a: int, b: int| 0 <= a < b < ks.len() implies #[trigger] ks[a] != #[trigger] ks[b] by {
                if b == ks0.len() {
                    assert(ks[a] == ks0[a]);
                    assert(ks[b] == k);
                } else {
                    assert(ks[a] == ks0[a] && ks[b] == ks0[b]);
                }
            }
        }
    }
}

} // verus!
