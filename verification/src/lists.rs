//! The smart lists (Inbox, Today, Plans, Someday, Logbook, Trash) and the
//! board orderings: which tasks each shows, and in which order.
use vstd::prelude::*;
use vstd::utf8::*;
use crate::model::{
    Todo, same_todo, day_dates_cuttable, open_dates_cuttable, done_dates_cuttable, task_date_of, active, in_inbox, deferred, overdue, due_today, done_on, archived, task_date, is_overdue,
    is_due_today, completed_on, is_archived, is_inbox, is_deferred, is_active,
};
use crate::order::{Rank, OrderKey, ranks_of, rank_lt, sorted_selection, one_direction, sort_selected, lemma_bytes_lt_irreflexive,
    usize_seq_view};
use crate::text::{text_lt, bytes_of, bytes_lt, str_less, to_lower, lowercase};
use crate::dates::{CivilDate, valid_date, key_text, today_key};

verus! {

#[derive(Clone, Copy, PartialEq, Eq, Debug, Structural)]
pub enum SmartList {
    Inbox,
    Today,
    Plans,
    Someday,
    Logbook,
    Trash,
}

#[derive(Clone, Copy, PartialEq, Eq, Debug, Structural)]
pub enum SortKey {
    Default,
    Date,
    Priority,
    Title,
}

#[derive(Clone, Copy, PartialEq, Eq, Debug, Structural)]
pub enum GroupKey {
    /// No grouping.
    Flat,
    Project,
    Date,
}

// ---------------------------------------------------------------------------
// Ranks
// ---------------------------------------------------------------------------

pub open spec fn date_or(t: Todo, fallback: Seq<char>) -> Seq<char> {
    match task_date_of(t).0 {
        Some(d) => d,
        None => fallback,
    }
}

pub open spec fn text_or(v: Option<String>, fallback: Seq<char>) -> Seq<char> {
    match v {
        Some(s) => s@,
        None => fallback,
    }
}

/// Overdue rows: by day, then by manual order.
pub open spec fn rank_overdue(t: Todo) -> Rank {
    Rank { text: encode_utf8(date_or(t, seq![])), desc: false, first: t.sort_order as int, second: 0 }
}

/// Manual order.
pub open spec fn rank_manual(t: Todo) -> Rank {
    Rank { text: seq![], desc: false, first: t.sort_order as int, second: 0 }
}

/// Plans: by day, undated last.
pub open spec fn rank_plans(t: Todo) -> Rank {
    Rank { text: encode_utf8(date_or(t, "\u{ffff}"@)), desc: false, first: 0, second: 0 }
}

/// Logbook: latest completion first.
pub open spec fn rank_logbook(t: Todo) -> Rank {
    Rank { text: encode_utf8(text_or(t.completed_at, seq![])), desc: true, first: 0, second: 0 }
}

/// Trash: latest created first.
pub open spec fn rank_trash(t: Todo) -> Rank {
    Rank { text: encode_utf8(t.created_at@), desc: true, first: 0, second: 0 }
}

/// Board "by date": by day (undated as "9999"), then manual order.
pub open spec fn rank_by_date(t: Todo) -> Rank {
    Rank { text: encode_utf8(date_or(t, "9999"@)), desc: false, first: t.sort_order as int, second: 0 }
}

/// Board "by priority": highest first, then manual order.
pub open spec fn rank_by_priority(t: Todo) -> Rank {
    Rank { text: seq![], desc: false, first: -(t.priority as int), second: t.sort_order as int }
}

/// Board "by title": lower-cased title, then manual order.
pub open spec fn rank_by_title(t: Todo) -> Rank {
    Rank { text: encode_utf8(lowercase(t.title@)), desc: false, first: t.sort_order as int, second: 0 }
}

pub open spec fn list_rank(list: SmartList, t: Todo) -> Rank {
    match list {
        SmartList::Plans => rank_plans(t),
        SmartList::Logbook => rank_logbook(t),
        SmartList::Trash => rank_trash(t),
        _ => rank_manual(t),
    }
}

pub open spec fn sort_rank(key: SortKey, t: Todo) -> Rank {
    match key {
        SortKey::Date => rank_by_date(t),
        SortKey::Priority => rank_by_priority(t),
        _ => rank_by_title(t),
    }
}

// ---------------------------------------------------------------------------
// Membership
// ---------------------------------------------------------------------------

/// Plans: active, undeferred, not a service task, dated after `today`.
pub open spec fn planned(t: Todo, today: Seq<char>) -> bool {
    &&& match task_date_of(t).0 {
        Some(d) => text_lt(today, d),
        None => false,
    }
    &&& active(t)
    &&& !deferred(t)
    &&& t.system_kind is None
}

/// Membership of every list but Today.
pub open spec fn in_list(list: SmartList, t: Todo, today: Seq<char>) -> bool {
    match list {
        SmartList::Inbox => in_inbox(t),
        SmartList::Plans => planned(t, today),
        SmartList::Someday => deferred(t),
        SmartList::Logbook => archived(t, today),
        SmartList::Trash => t.is_trashed,
        SmartList::Today => due_today(t, today) || done_on(t, today),
    }
}

/// The dates a list reads of a task can be cut to their day parts: every
/// task's day for Plans, the completion date of a done task for the
/// Logbook, both where they are read for Today, none for the other lists.
pub open spec fn list_reach(list: SmartList, t: Todo) -> bool {
    match list {
        SmartList::Plans => day_dates_cuttable(t),
        SmartList::Logbook => done_dates_cuttable(t),
        SmartList::Today => open_dates_cuttable(t) && done_dates_cuttable(t),
        _ => true,
    }
}

// ---------------------------------------------------------------------------
// Selections
// ---------------------------------------------------------------------------

/// `out` holds copies of the tasks at positions `q`, in that order.
pub open spec fn copies_at(out: Seq<Todo>, todos: Seq<Todo>, q: Seq<int>) -> bool {
    &&& out.len() == q.len()
    &&& forall|i: int| 0 <= i < q.len() ==> 0 <= q[i] < todos.len() && same_todo(#[trigger] out[i], todos[q[i]])
}

/// `out` is the tasks with `chosen` set, stably ordered by `ranks`.
pub open spec fn sorted_rows(out: Seq<Todo>, todos: Seq<Todo>, chosen: Seq<bool>, ranks: Seq<Rank>) -> bool {
    exists|q: Seq<int>| sorted_selection(ranks, chosen, q) && #[trigger] copies_at(out, todos, q)
}

pub open spec fn overdue_chosen(todos: Seq<Todo>, today: Seq<char>) -> Seq<bool> {
    Seq::new(todos.len(), |i: int| overdue(todos[i], today))
}

pub open spec fn overdue_ranks(todos: Seq<Todo>) -> Seq<Rank> {
    Seq::new(todos.len(), |i: int| rank_overdue(todos[i]))
}

pub open spec fn list_chosen(list: SmartList, todos: Seq<Todo>, today: Seq<char>) -> Seq<bool> {
    Seq::new(todos.len(), |i: int| in_list(list, todos[i], today))
}

pub open spec fn list_ranks(list: SmartList, todos: Seq<Todo>) -> Seq<Rank> {
    Seq::new(todos.len(), |i: int| list_rank(list, todos[i]))
}

/// Copies the rows at the given positions.
fn rows_at(todos: &[Todo], q: &Vec<usize>) -> (out: Vec<Todo>)
    requires
        forall|i: int| 0 <= i < q@.len() ==> #[trigger] q@[i] < todos@.len(),
    ensures
        copies_at(out@, todos@, usize_seq_view(q@)),
{
    let mut out: Vec<Todo> = Vec::new();
    let mut i: usize = 0;
    while i < q.len()
        invariant
            forall|x: int| 0 <= x < q@.len() ==> #[trigger] q@[x] < todos@.len(),
            i <= q@.len(),
            out@.len() == i,
            forall|x: int| 0 <= x < i ==> same_todo(#[trigger] out@[x], todos@[q@[x] as int]),
        decreases q@.len() - i,
    {
        let t = todos[q[i]].copy();
        out.push(t);
        i = i + 1;
    }
    out
}

/// Orders and copies the chosen rows.
fn select_rows(todos: &[Todo], chosen: &Vec<bool>, keys: &Vec<OrderKey>) -> (out: Vec<Todo>)
    requires
        keys@.len() == todos@.len(),
        chosen@.len() == todos@.len(),
        one_direction(ranks_of(keys@)),
    ensures
        sorted_rows(out@, todos@, chosen@, ranks_of(keys@)),
{
    let q = sort_selected(keys, chosen);
    proof {
        assert forall|i: int| 0 <= i < q@.len() implies #[trigger] q@[i] < todos@.len() by {
            assert(usize_seq_view(q@)[i] == q@[i] as int);
        }
    }
    let out = rows_at(todos, &q);
    proof {
        assert(copies_at(out@, todos@, usize_seq_view(q@)));
    }
    out
}

/// Day key used to order overdue rows.
fn date_text_or(t: &Todo, fallback: &str) -> (r: Vec<u8>)
    requires
        day_dates_cuttable(*t),
    ensures
        r@ == encode_utf8(date_or(*t, fallback@)),
{
    let (date, _conflict) = task_date(t);
    match date {
        Some(d) => bytes_of(d.as_str()),
        None => bytes_of(fallback),
    }
}

fn text_or_empty(v: &Option<String>) -> (r: Vec<u8>)
    ensures
        r@ == encode_utf8(text_or(*v, seq![])),
{
    match v {
        Some(s) => bytes_of(s.as_str()),
        None => {
            proof {
                assert(encode_utf8(seq![]) =~= Seq::<u8>::empty());
            }
            Vec::new()
        },
    }
}

/// Active, planned tasks dated before `today`, oldest day first, then in
/// manual order.
pub fn overdue_todos(todos: &[Todo], today: &str) -> (out: Vec<Todo>)
    requires
        forall|i: int| 0 <= i < todos@.len() ==> #[trigger] open_dates_cuttable(todos@[i]),
    ensures
        sorted_rows(out@, todos@, overdue_chosen(todos@, today@), overdue_ranks(todos@)),
{
    let mut chosen: Vec<bool> = Vec::new();
    let mut keys: Vec<OrderKey> = Vec::new();
    let mut i: usize = 0;
    while i < todos.len()
        invariant
            forall|x: int| 0 <= x < todos@.len() ==> #[trigger] open_dates_cuttable(todos@[x]),
            i <= todos@.len(),
            chosen@.len() == i,
            keys@.len() == i,
            forall|x: int| 0 <= x < i ==> #[trigger] chosen@[x] == overdue(todos@[x], today@),
            forall|x: int| 0 <= x < i && chosen@[x] ==> (#[trigger] keys@[x]).rank() == rank_overdue(todos@[x]),
            forall|x: int| 0 <= x < i ==> !(#[trigger] keys@[x]).desc,
        decreases todos@.len() - i,
    {
        let t = &todos[i];
        assert(open_dates_cuttable(todos@[i as int]));
        let due = is_overdue(t, today);
        chosen.push(due);
        let text = if due {
            date_text_or(t, "")
        } else {
            Vec::new()
        };
        proof {
            reveal_strlit("");
        }
        keys.push(OrderKey { text, desc: false, first: t.sort_order as i64, second: 0 });
        i = i + 1;
    }
    proof {
        assert(chosen@ =~= overdue_chosen(todos@, today@));
    }
    let out = select_rows(todos, &chosen, &keys);
    proof {
        lemma_sorted_rows_chosen_ranks(out@, todos@, chosen@, ranks_of(keys@), overdue_ranks(todos@));
    }
    out
}

/// Only the ranks of chosen rows matter to their order.
proof fn lemma_sorted_rows_chosen_ranks(out: Seq<Todo>, todos: Seq<Todo>, chosen: Seq<bool>, r1: Seq<Rank>, r2: Seq<Rank>)
    requires
        sorted_rows(out, todos, chosen, r1),
        r1.len() == r2.len(),
        forall|i: int| 0 <= i < r1.len() && chosen[i] ==> #[trigger] r1[i] == r2[i],
    ensures
        sorted_rows(out, todos, chosen, r2),
{
    let q = choose|q: Seq<int>| sorted_selection(r1, chosen, q) && #[trigger] copies_at(out, todos, q);
    assert forall|i: int| 0 <= i < q.len() implies #[trigger] r1[q[i]] == r2[q[i]] by {
        assert(0 <= q[i] < r1.len() && chosen[q[i]]);
    }
    assert(sorted_selection(r2, chosen, q));
}

fn is_planned(t: &Todo, today: &str) -> (r: bool)
    requires
        day_dates_cuttable(*t),
    ensures
        r == planned(*t, today@),
{
    let (date, _conflict) = task_date(t);
    let later = match date {
        Some(d) => str_less(today, d.as_str()),
        None => false,
    };
    later && is_active(t) && !is_deferred(t) && t.system_kind.is_none()
}

fn is_in_list(list: SmartList, t: &Todo, today: &str) -> (r: bool)
    requires
        list_reach(list, *t),
    ensures
        r == in_list(list, *t, today@),
{
    match list {
        SmartList::Inbox => is_inbox(t),
        SmartList::Plans => is_planned(t, today),
        SmartList::Someday => is_deferred(t),
        SmartList::Logbook => is_archived(t, today),
        SmartList::Trash => t.is_trashed,
        SmartList::Today => is_due_today(t, today) || completed_on(t, today),
    }
}

fn list_key(list: SmartList, t: &Todo) -> (k: OrderKey)
    requires
        list == SmartList::Plans ==> day_dates_cuttable(*t),
    ensures
        k.rank() == list_rank(list, *t),
{
    match list {
        SmartList::Plans => {
            let text = date_text_or(t, "\u{ffff}");
            OrderKey { text, desc: false, first: 0, second: 0 }
        },
        SmartList::Logbook => {
            let text = text_or_empty(&t.completed_at);
            OrderKey { text, desc: true, first: 0, second: 0 }
        },
        SmartList::Trash => {
            let text = bytes_of(t.created_at.as_str());
            OrderKey { text, desc: true, first: 0, second: 0 }
        },
        _ => {
            proof {
                assert(Seq::<u8>::empty() =~= seq![]);
            }
            OrderKey { text: Vec::new(), desc: false, first: t.sort_order as i64, second: 0 }
        },
    }
}

/// The rows of a list other than Today's overdue part, ordered for the list.
fn list_rows(list: SmartList, todos: &[Todo], today: &str) -> (out: Vec<Todo>)
    requires
        forall|i: int| 0 <= i < todos@.len() ==> #[trigger] list_reach(list, todos@[i]),
    ensures
        sorted_rows(out@, todos@, list_chosen(list, todos@, today@), list_ranks(list, todos@)),
{
    let mut chosen: Vec<bool> = Vec::new();
    let mut keys: Vec<OrderKey> = Vec::new();
    let mut i: usize = 0;
    while i < todos.len()
        invariant
            forall|x: int| 0 <= x < todos@.len() ==> #[trigger] list_reach(list, todos@[x]),
            i <= todos@.len(),
            chosen@.len() == i,
            keys@.len() == i,
            forall|x: int| 0 <= x < i ==> #[trigger] chosen@[x] == in_list(list, todos@[x], today@),
            forall|x: int| 0 <= x < i ==> (#[trigger] keys@[x]).rank() == list_rank(list, todos@[x]),
        decreases todos@.len() - i,
    {
        let t = &todos[i];
        assert(list_reach(list, todos@[i as int]));
        chosen.push(is_in_list(list, t, today));
        keys.push(list_key(list, t));
        i = i + 1;
    }
    proof {
        assert(chosen@ =~= list_chosen(list, todos@, today@));
        assert(ranks_of(keys@) =~= list_ranks(list, todos@));
    }
    select_rows(todos, &chosen, &keys)
}

/// What a smart list shows on `today`: Today is the overdue rows followed by
/// the rows due or completed today; every other list is its members in the
/// list's order.
pub open spec fn smart_list_rows(list: SmartList, todos: Seq<Todo>, today: Seq<char>, out: Seq<Todo>) -> bool {
    if list == SmartList::Today {
        exists|n: int|
            0 <= n <= out.len()
            && sorted_rows(#[trigger] out.take(n), todos, overdue_chosen(todos, today), overdue_ranks(todos))
            && sorted_rows(out.skip(n), todos, list_chosen(list, todos, today), list_ranks(list, todos))
    } else {
        sorted_rows(out, todos, list_chosen(list, todos, today), list_ranks(list, todos))
    }
}

/// The rows of a smart list on the given day.
pub fn filter_todos_on(list: SmartList, todos: &[Todo], today: &str) -> (out: Vec<Todo>)
    requires
        forall|i: int| 0 <= i < todos@.len() ==> #[trigger] list_reach(list, todos@[i]),
    ensures
        smart_list_rows(list, todos@, today@, out@),
{
    if list == SmartList::Today {
        assert forall|i: int| 0 <= i < todos@.len() implies #[trigger] open_dates_cuttable(todos@[i]) by {
            assert(list_reach(list, todos@[i]));
        }
        let mut v = overdue_todos(todos, today);
        let ghost n = v@.len() as int;
        let ghost first = v@;
        let mut due = list_rows(list, todos, today);
        let ghost second = due@;
        v.append(&mut due);
        proof {
            assert(v@.take(n) =~= first);
            assert(v@.skip(n) =~= second);
            assert(sorted_rows(v@.take(n), todos@, overdue_chosen(todos@, today@), overdue_ranks(todos@)));
        }
        return v;
    }
    list_rows(list, todos, today)
}

pub open spec fn board_ranks(key: SortKey, todos: Seq<Todo>) -> Seq<Rank> {
    Seq::new(todos.len(), |i: int| sort_rank(key, todos[i]))
}

pub open spec fn all_chosen(n: nat) -> Seq<bool> {
    Seq::new(n, |i: int| true)
}

/// `out` is `items` in a board order: unchanged for Default, otherwise
/// stably sorted by the key's rank.
pub open spec fn board_order(items: Seq<Todo>, key: SortKey, out: Seq<Todo>) -> bool {
    if key == SortKey::Default {
        copies_at(out, items, Seq::new(items.len(), |i: int| i))
    } else {
        sorted_rows(out, items, all_chosen(items.len()), board_ranks(key, items))
    }
}

fn sort_key_of(key: SortKey, t: &Todo) -> (k: OrderKey)
    requires
        key == SortKey::Date ==> day_dates_cuttable(*t),
        key != SortKey::Default,
    ensures
        k.rank() == sort_rank(key, *t),
{
    match key {
        SortKey::Date => {
            let text = date_text_or(t, "9999");
            OrderKey { text, desc: false, first: t.sort_order as i64, second: 0 }
        },
        SortKey::Priority => {
            proof {
                assert(Seq::<u8>::empty() =~= seq![]);
            }
            OrderKey { text: Vec::new(), desc: false, first: -(t.priority as i64), second: t.sort_order as i64 }
        },
        _ => {
            let lower = to_lower(t.title.as_str());
            let text = bytes_of(lower.as_str());
            OrderKey { text, desc: false, first: t.sort_order as i64, second: 0 }
        },
    }
}

/// Board rows in the chosen sort order.
pub fn sorted(items: &[Todo], key: SortKey) -> (out: Vec<Todo>)
    requires
        key == SortKey::Date ==> forall|i: int| 0 <= i < items@.len() ==> #[trigger] day_dates_cuttable(items@[i]),
    ensures
        board_order(items@, key, out@),
{
    if key == SortKey::Default {
        let mut q: Vec<usize> = Vec::new();
        let mut i: usize = 0;
        while i < items.len()
            invariant
                i <= items@.len(),
                q@.len() == i,
                forall|x: int| 0 <= x < i ==> #[trigger] q@[x] == x,
            decreases items@.len() - i,
        {
            q.push(i);
            i = i + 1;
        }
        let out = rows_at(items, &q);
        proof {
            assert(usize_seq_view(q@) =~= Seq::new(items@.len(), |i: int| i));
        }
        return out;
    }
    let mut chosen: Vec<bool> = Vec::new();
    let mut keys: Vec<OrderKey> = Vec::new();
    let mut i: usize = 0;
    while i < items.len()
        invariant
            key == SortKey::Date ==> forall|x: int| 0 <= x < items@.len() ==> #[trigger] day_dates_cuttable(items@[x]),
            key != SortKey::Default,
            i <= items@.len(),
            chosen@.len() == i,
            keys@.len() == i,
            forall|x: int| 0 <= x < i ==> #[trigger] chosen@[x],
            forall|x: int| 0 <= x < i ==> (#[trigger] keys@[x]).rank() == sort_rank(key, items@[x]),
        decreases items@.len() - i,
    {
        assert(key == SortKey::Date ==> day_dates_cuttable(items@[i as int]));
        chosen.push(true);
        keys.push(sort_key_of(key, &items[i]));
        i = i + 1;
    }
    proof {
        assert(chosen@ =~= all_chosen(items@.len()));
        assert(ranks_of(keys@) =~= board_ranks(key, items@));
    }
    select_rows(items, &chosen, &keys)
}

/// The rows of a smart list today (the day is read from the local clock).
pub fn filter_todos(list: SmartList, todos: &[Todo]) -> (out: Vec<Todo>)
    requires
        forall|i: int| 0 <= i < todos@.len() ==> #[trigger] list_reach(list, todos@[i]),
    ensures
        exists|d: CivilDate| valid_date(d) && smart_list_rows(list, todos@, key_text(d), out@),
{
    let today = today_key();
    filter_todos_on(list, todos, today.as_str())
}


/// Of two rows of a sorted selection, the earlier comes from a position
/// whose rank is not after the later one's.
proof fn lemma_sorted_rows_pair(out: Seq<Todo>, todos: Seq<Todo>, chosen: Seq<bool>, ranks: Seq<Rank>, i: int, j: int) -> (ab: (int, int))
    requires
        sorted_rows(out, todos, chosen, ranks),
        0 <= i < j < out.len(),
        ranks.len() == todos.len(),
    ensures
        0 <= ab.0 < todos.len() && 0 <= ab.1 < todos.len(),
        same_todo(out[i], todos[ab.0]) && same_todo(out[j], todos[ab.1]),
        !rank_lt(ranks[ab.1], ranks[ab.0]),
{
    let q = choose|q: Seq<int>| sorted_selection(ranks, chosen, q) && #[trigger] copies_at(out, todos, q);
    assert(same_todo(out[i], todos[q[i]]));
    assert(same_todo(out[j], todos[q[j]]));
    (q[i], q[j])
}

/// The text of an optional stamp, as bytes (empty where there is none).
pub open spec fn stamp_bytes(v: Option<String>) -> Seq<u8> {
    match v {
        Some(s) => encode_utf8(s@),
        None => seq![],
    }
}

/// The order of the smart lists' rows: Inbox and Someday in manual order;
/// Plans by day, earliest first (undated last); the Logbook by completion,
/// latest first; the Trash by creation, latest first.
pub proof fn law_list_order(list: SmartList, todos: Seq<Todo>, today: Seq<char>, out: Seq<Todo>, i: int, j: int)
    requires
        list != SmartList::Today,
        smart_list_rows(list, todos, today, out),
        0 <= i < j < out.len(),
    ensures
        list == SmartList::Inbox || list == SmartList::Someday ==> out[i].sort_order <= out[j].sort_order,
        list == SmartList::Plans ==> !bytes_lt(
            encode_utf8(match task_date_of(out[j]).0 { Some(d) => d, None => "\u{ffff}"@ }),
            encode_utf8(match task_date_of(out[i]).0 { Some(d) => d, None => "\u{ffff}"@ }),
        ),
        list == SmartList::Logbook ==> !bytes_lt(stamp_bytes(out[i].completed_at), stamp_bytes(out[j].completed_at)),
        list == SmartList::Trash ==> !bytes_lt(encode_utf8(out[i].created_at@), encode_utf8(out[j].created_at@)),
{
    let ranks = list_ranks(list, todos);
    let (a, b) = lemma_sorted_rows_pair(out, todos, list_chosen(list, todos, today), ranks, i, j);
    let ra = ranks[a];
    let rb = ranks[b];
    lemma_bytes_lt_irreflexive(ra.text);
    if list == SmartList::Logbook {
        assert(ra.text == stamp_bytes(out[i].completed_at)) by {
            assert(encode_utf8(seq![]) =~= Seq::<u8>::empty());
        }
        assert(rb.text == stamp_bytes(out[j].completed_at)) by {
            assert(encode_utf8(seq![]) =~= Seq::<u8>::empty());
        }
    }
}


/// A row of a sorted selection is a copy of a chosen task.
proof fn lemma_sorted_rows_member(out: Seq<Todo>, todos: Seq<Todo>, chosen: Seq<bool>, ranks: Seq<Rank>, i: int) -> (a: int)
    requires
        sorted_rows(out, todos, chosen, ranks),
        0 <= i < out.len(),
        chosen.len() == todos.len(),
    ensures
        0 <= a < todos.len() && a < chosen.len() && chosen[a] && same_todo(out[i], todos[a]),
{
    let q = choose|q: Seq<int>| sorted_selection(ranks, chosen, q) && #[trigger] copies_at(out, todos, q);
    assert(same_todo(out[i], todos[q[i]]));
    q[i]
}

/// The day a task is filed under, as bytes (empty where it has none).
pub open spec fn day_bytes(t: Todo, none: Seq<char>) -> Seq<u8> {
    encode_utf8(match task_date_of(t).0 {
        Some(d) => d,
        None => none,
    })
}

/// Today's list: first the overdue tasks, by day (earliest first) and then
/// in manual order, then the tasks due or completed today, in manual order.
pub proof fn law_today_order(todos: Seq<Todo>, today: Seq<char>, out: Seq<Todo>)
    requires
        smart_list_rows(SmartList::Today, todos, today, out),
    ensures
        exists|n: int| #![trigger out.take(n)] {
            &&& 0 <= n <= out.len()
            &&& forall|i: int| 0 <= i < n ==> overdue(#[trigger] out[i], today)
            &&& forall|i: int| n <= i < out.len() ==> due_today(#[trigger] out[i], today) || done_on(out[i], today)
            &&& forall|i: int, j: int| 0 <= i < j < n ==> {
                &&& !bytes_lt(day_bytes(#[trigger] out[j], seq![]), day_bytes(#[trigger] out[i], seq![]))
                &&& day_bytes(out[i], seq![]) == day_bytes(out[j], seq![]) ==> out[i].sort_order <= out[j].sort_order
            }
            &&& forall|i: int, j: int| n <= i < j < out.len() ==> (#[trigger] out[i]).sort_order <= (#[trigger] out[j]).sort_order
        },
{
    let n = choose|n: int|
        0 <= n <= out.len()
        && sorted_rows(#[trigger] out.take(n), todos, overdue_chosen(todos, today), overdue_ranks(todos))
        && sorted_rows(out.skip(n), todos, list_chosen(SmartList::Today, todos, today), list_ranks(SmartList::Today, todos));
    let head = out.take(n);
    let tail = out.skip(n);
    assert forall|i: int| 0 <= i < n implies overdue(#[trigger] out[i], today) by {
        let a = lemma_sorted_rows_member(head, todos, overdue_chosen(todos, today), overdue_ranks(todos), i);
        assert(head[i] == out[i]);
    }
    assert forall|i: int| n <= i < out.len() implies due_today(#[trigger] out[i], today) || done_on(out[i], today) by {
        let a = lemma_sorted_rows_member(tail, todos, list_chosen(SmartList::Today, todos, today), list_ranks(SmartList::Today, todos), i - n);
        assert(tail[i - n] == out[i]);
    }
    assert forall|i: int, j: int| 0 <= i < j < n implies {
        &&& !bytes_lt(day_bytes(#[trigger] out[j], seq![]), day_bytes(#[trigger] out[i], seq![]))
        &&& day_bytes(out[i], seq![]) == day_bytes(out[j], seq![]) ==> out[i].sort_order <= out[j].sort_order
    } by {
        let (a, b) = lemma_sorted_rows_pair(head, todos, overdue_chosen(todos, today), overdue_ranks(todos), i, j);
        assert(head[i] == out[i] && head[j] == out[j]);
        lemma_bytes_lt_irreflexive(day_bytes(out[i], seq![]));
    }
    assert forall|i: int, j: int| n <= i < j < out.len() implies (#[trigger] out[i]).sort_order <= (#[trigger] out[j]).sort_order by {
        let (a, b) = lemma_sorted_rows_pair(tail, todos, list_chosen(SmartList::Today, todos, today), list_ranks(SmartList::Today, todos), i - n, j - n);
        assert(tail[i - n] == out[i] && tail[j - n] == out[j]);
    }
    assert(out.take(n) == head);
}

/// A board in a chosen order: unchanged in the default order; by priority,
/// highest first; by day, earliest first (undated as "9999"); by title,
/// lower-cased; ties in manual order.
pub proof fn law_board_order(items: Seq<Todo>, key: SortKey, out: Seq<Todo>, i: int, j: int)
    requires
        board_order(items, key, out),
        0 <= i < j < out.len(),
    ensures
        key == SortKey::Default ==> out.len() == items.len() && same_todo(out[i], items[i]) && same_todo(out[j], items[j]),
        key == SortKey::Priority ==> out[i].priority >= out[j].priority
            && (out[i].priority == out[j].priority ==> out[i].sort_order <= out[j].sort_order),
        key == SortKey::Date ==> !bytes_lt(day_bytes(out[j], "9999"@), day_bytes(out[i], "9999"@))
            && (day_bytes(out[i], "9999"@) == day_bytes(out[j], "9999"@) ==> out[i].sort_order <= out[j].sort_order),
        key == SortKey::Title ==> !bytes_lt(encode_utf8(lowercase(out[j].title@)), encode_utf8(lowercase(out[i].title@)))
            && (lowercase(out[i].title@) == lowercase(out[j].title@) ==> out[i].sort_order <= out[j].sort_order),
{
    if key != SortKey::Default {
        let (a, b) = lemma_sorted_rows_pair(out, items, all_chosen(items.len()), board_ranks(key, items), i, j);
        lemma_bytes_lt_irreflexive(board_ranks(key, items)[a].text);
    }
}

} // verus!
