//! The recurrence editor of the task page: opening it on a task's rule,
//! picking weekdays, and applying or clearing the rule.
use vstd::prelude::*;
use vstd::seq_lib::{to_multiset_build, to_multiset_insert};
use crate::model::RecurrenceRule;
use crate::workspace::{Agenda, Entry, Panels, updated};
use crate::edits::TodoEdit;
use crate::menus::{todo_of, freq_label};
use crate::model::copy_bytes;

verus! {

/// The days are in ascending order.
pub open spec fn ascending(s: Seq<u8>) -> bool {
    forall|i: int, j: int| 0 <= i < j < s.len() ==> s[i] <= s[j]
}

/// The days in ascending order.
pub fn sort_days(v: &Vec<u8>) -> (r: Vec<u8>)
    ensures
        ascending(r@),
        r@.to_multiset() == v@.to_multiset(),
{
    let mut r: Vec<u8> = Vec::new();
    let mut k: usize = 0;
    proof {
        assert(v@.take(0) =~= Seq::<u8>::empty());
        assert(r@ =~= Seq::<u8>::empty());
    }
    while k < v.len()
        invariant
            k <= v@.len(),
            ascending(r@),
            r@.to_multiset() == v@.take(k as int).to_multiset(),
        decreases v@.len() - k,
    {
        let x = v[k];
        let mut pos: usize = 0;
        while pos < r.len() && r[pos] <= x
            invariant
                pos <= r@.len(),
                forall|i: int| 0 <= i < pos ==> r@[i] <= x,
            decreases r@.len() - pos,
        {
            pos = pos + 1;
        }
        let ghost before = r@;
        r.insert(pos, x);
        proof {
            to_multiset_insert(before, pos as int, x);
            to_multiset_build(v@.take(k as int), x);
            assert(v@.take(k + 1) =~= v@.take(k as int).push(x));
            assert forall|i: int, j: int| 0 <= i < j < r@.len() implies r@[i] <= r@[j] by {
                if j < pos {
                    assert(r@[i] == before[i] && r@[j] == before[j]);
                } else if j == pos {
                    assert(r@[i] == before[i]);
                } else if i < pos {
                    assert(r@[i] == before[i] && r@[j] == before[j - 1]);
                    assert(before[i] <= x);
                    assert(pos < before.len() ==> before[pos as int] > x);
                    if pos < before.len() {
                        assert(before[pos as int] <= before[j - 1]);
                    }
                } else if i == pos {
                    assert(r@[j] == before[j - 1]);
                    assert(before[pos as int] > x);
                    assert(before[pos as int] <= before[j - 1]);
                } else {
                    assert(r@[i] == before[i - 1] && r@[j] == before[j - 1]);
                }
            }
        }
        k = k + 1;
    }
    proof {
        assert(v@.take(v@.len() as int) =~= v@);
    }
    r
}

/// The days other than `d`, order kept.
pub open spec fn without_day(s: Seq<u8>, d: u8) -> Seq<u8>
    decreases s.len(),
{
    if s.len() == 0 {
        s
    } else if s.last() == d {
        without_day(s.drop_last(), d)
    } else {
        without_day(s.drop_last(), d).push(s.last())
    }
}

/// Picking weekday `d`: a picked day is dropped; another is added and the
/// days sorted.
pub open spec fn days_toggled(old: Seq<u8>, new: Seq<u8>, d: u8) -> bool {
    if old.contains(d) {
        new == without_day(old, d)
    } else {
        ascending(new) && new.to_multiset() == old.push(d).to_multiset()
    }
}

fn drop_day(v: &Vec<u8>, d: u8) -> (r: Vec<u8>)
    ensures
        r@ == without_day(v@, d),
{
    let mut r: Vec<u8> = Vec::new();
    let mut i: usize = 0;
    while i < v.len()
        invariant
            i <= v@.len(),
            r@ == without_day(v@.take(i as int), d),
        decreases v@.len() - i,
    {
        proof {
            assert(v@.take(i + 1).drop_last() =~= v@.take(i as int));
        }
        if v[i] != d {
            r.push(v[i]);
        }
        i = i + 1;
    }
    proof {
        assert(v@.take(v@.len() as int) =~= v@);
    }
    r
}

fn has_day(v: &Vec<u8>, d: u8) -> (r: bool)
    ensures
        r == v@.contains(d),
{
    let mut i: usize = 0;
    while i < v.len()
        invariant
            i <= v@.len(),
            forall|j: int| 0 <= j < i ==> v@[j] != d,
        decreases v@.len() - i,
    {
        if v[i] == d {
            proof {
                assert(v@[i as int] == d);
            }
            return true;
        }
        i = i + 1;
    }
    false
}

/// The editor after opening or closing it on task `tid`: opening loads the
/// task's rule, or a weekly rule every period on a fixed schedule with no
/// days where the task has none; a task that is not there loads nothing.
pub open spec fn recur_editor_toggled(old: Agenda, new: Agenda, tid: Seq<char>) -> bool {
    let opened = !old.panels.recur_open;
    let base = Agenda { panels: Panels { recur_open: opened, ..old.panels }, ..old };
    if opened && todo_of(old, tid) is Some {
        match todo_of(old, tid)->0.recurrence {
            Some(r) => {
                &&& new == Agenda {
                    entry: Entry {
                        recur_freq: r.frequency,
                        recur_interval: r.interval,
                        recur_type: r.recurrence_type,
                        recur_days: new.entry.recur_days,
                        ..old.entry
                    },
                    ..base
                }
                &&& new.entry.recur_days@ == r.days_of_week@
            },
            None => {
                &&& new == Agenda {
                    entry: Entry {
                        recur_freq: 1,
                        recur_interval: 1,
                        recur_type: 0,
                        recur_days: new.entry.recur_days,
                        ..old.entry
                    },
                    ..base
                }
                &&& new.entry.recur_days@ == Seq::<u8>::empty()
            },
        }
    } else {
        new == base
    }
}

/// The rule the editor applies: its period, its count (at least 1), its
/// kind and its days.
pub open spec fn rule_from(e: Entry, r: RecurrenceRule) -> bool {
    &&& r.frequency == e.recur_freq
    &&& r.interval == if e.recur_interval >= 1 { e.recur_interval } else { 1 }
    &&& r.recurrence_type == e.recur_type
    &&& r.days_of_week@ == e.recur_days@
}

pub open spec fn type_label(v: u8) -> Seq<char> {
    if v == 1 {
        "после выполнения"@
    } else {
        "по расписанию"@
    }
}

impl Agenda {
    /// Opens or closes the recurrence editor on the task `tid`.
    pub fn toggle_recur_editor(&mut self, tid: &str)
        ensures
            recur_editor_toggled(*old(self), *final(self), tid@),
    {
        self.panels.recur_open = !self.panels.recur_open;
        if !self.panels.recur_open {
            return;
        }
        let found = crate::workspace::find_todo(&self.records.todos, tid);
        proof {
            crate::workspace::lemma_id_pos_from(self.records.todos@, tid@, 0);
        }
        match found {
            Some(i) => {
                let (freq, interval, kind, days) = match &self.records.todos[i].recurrence {
                    Some(r) => (r.frequency, r.interval, r.recurrence_type, copy_bytes(&r.days_of_week)),
                    None => (1, 1, 0, Vec::new()),
                };
                self.entry.recur_freq = freq;
                self.entry.recur_interval = interval;
                self.entry.recur_type = kind;
                self.entry.recur_days = days;
            },
            None => {},
        }
    }

    /// Picks or unpicks weekday `d` in the editor.
    pub fn toggle_recur_day(&mut self, d: u8)
        ensures
            *final(self) == (Agenda { entry: Entry { recur_days: final(self).entry.recur_days, ..old(self).entry }, ..*old(self) }),
            days_toggled(old(self).entry.recur_days@, final(self).entry.recur_days@, d),
    {
        if has_day(&self.entry.recur_days, d) {
            self.entry.recur_days = drop_day(&self.entry.recur_days, d);
        } else {
            let mut days = copy_bytes(&self.entry.recur_days);
            days.push(d);
            self.entry.recur_days = sort_days(&days);
        }
    }

    /// Sets the editor's rule on the task `tid` and closes the editor.
    pub fn apply_recurrence(&mut self, tid: &str)
        ensures
            exists|mid: Agenda, r: RecurrenceRule|
                rule_from(old(self).entry, r) && #[trigger] updated(*old(self), mid, tid@, TodoEdit::Recurrence(Some(r)))
                    && *final(self) == (Agenda { panels: Panels { recur_open: false, ..mid.panels }, ..mid }),
    {
        let interval = if self.entry.recur_interval >= 1 {
            self.entry.recur_interval
        } else {
            1
        };
        let rule = RecurrenceRule {
            frequency: self.entry.recur_freq,
            interval,
            recurrence_type: self.entry.recur_type,
            days_of_week: copy_bytes(&self.entry.recur_days),
        };
        let ghost r = rule;
        self.update_todo(tid, TodoEdit::Recurrence(Some(rule)));
        let ghost mid = *self;
        self.panels.recur_open = false;
    }

    /// Removes the rule of the task `tid` and closes the editor.
    pub fn clear_recurrence(&mut self, tid: &str)
        ensures
            exists|mid: Agenda|
                #[trigger] updated(*old(self), mid, tid@, TodoEdit::Recurrence(None))
                    && *final(self) == (Agenda { panels: Panels { recur_open: false, ..mid.panels }, ..mid }),
    {
        self.update_todo(tid, TodoEdit::Recurrence(None));
        let ghost mid = *self;
        self.panels.recur_open = false;
    }

    /// The captions of the editor's period and kind.
    pub fn recur_captions(&self) -> (r: (String, String))
        requires
            self.entry.recur_freq <= 3,
        ensures
            r.0@ == freq_label(self.entry.recur_freq as int),
            r.1@ == type_label(self.entry.recur_type),
    {
        let v = self.entry.recur_freq;
        let freq = if v == 0 {
            "День"
        } else if v == 1 {
            "Неделя"
        } else if v == 2 {
            "Месяц"
        } else {
            "Год"
        };
        let kind = if self.entry.recur_type == 1 {
            "после выполнения"
        } else {
            "по расписанию"
        };
        (freq.to_owned(), kind.to_owned())
    }

    /// Which of the weekdays Monday .. Sunday (ISO 1 ..= 7) are picked.
    pub fn recur_day_marks(&self) -> (r: Vec<bool>)
        ensures
            r@.len() == 7,
            forall|i: int| 0 <= i < 7 ==> #[trigger] r@[i] == self.entry.recur_days@.contains((i + 1) as u8),
    {
        let mut r: Vec<bool> = Vec::new();
        let mut i: u8 = 0;
        while i < 7
            invariant
                i <= 7,
                r@.len() == i,
                forall|j: int| 0 <= j < i ==> #[trigger] r@[j] == self.entry.recur_days@.contains((j + 1) as u8),
            decreases 7 - i,
        {
            r.push(has_day(&self.entry.recur_days, i + 1));
            i = i + 1;
        }
        r
    }
}

// ---------------------------------------------------------------------------
// Sorted days
// ---------------------------------------------------------------------------

/// Two sorted sequences with the same elements are the same sequence.
pub proof fn lemma_ascending_unique(s: Seq<u8>, t: Seq<u8>)
    requires
        ascending(s),
        ascending(t),
        s.to_multiset() == t.to_multiset(),
    ensures
        s == t,
    decreases s.len(),
{
    broadcast use vstd::seq_lib::group_to_multiset_ensures;
    broadcast use vstd::multiset::group_multiset_axioms;
    assert(s.len() == s.to_multiset().len());
    assert(t.len() == t.to_multiset().len());
    if s.len() == 0 {
        assert(s =~= t);
    } else {
        assert(t.contains(t[0]));
        assert(t.to_multiset().count(t[0]) > 0);
        assert(s.contains(t[0]));
        let i = choose|i: int| 0 <= i < s.len() && s[i] == t[0];
        assert(s[0] <= s[i]);
        assert(s.contains(s[0]));
        assert(s.to_multiset().count(s[0]) > 0);
        assert(t.to_multiset().count(s[0]) > 0);
        assert(t.contains(s[0]));
        let j = choose|j: int| 0 <= j < t.len() && t[j] == s[0];
        assert(t[0] <= t[j]);
        assert(s[0] == t[0]);
        let s1 = s.remove(0);
        let t1 = t.remove(0);
        assert(s1.to_multiset() =~= s.to_multiset().remove(s[0]));
        assert(t1.to_multiset() =~= t.to_multiset().remove(t[0]));
        assert forall|a: int, b: int| 0 <= a < b < s1.len() implies s1[a] <= s1[b] by {
            assert(s1[a] == s[a + 1] && s1[b] == s[b + 1]);
        }
        assert forall|a: int, b: int| 0 <= a < b < t1.len() implies t1[a] <= t1[b] by {
            assert(t1[a] == t[a + 1] && t1[b] == t[b + 1]);
        }
        lemma_ascending_unique(s1, t1);
        assert(s =~= seq![s[0]] + s1);
        assert(t =~= seq![t[0]] + t1);
    }
}

/// Dropping a day keeps the other days, in order, each as often.
pub proof fn lemma_without_day(s: Seq<u8>, d: u8)
    ensures
        !without_day(s, d).contains(d),
        forall|x: u8| #[trigger] without_day(s, d).contains(x) ==> s.contains(x),
        forall|x: u8| x != d ==> #[trigger] without_day(s, d).to_multiset().count(x) == s.to_multiset().count(x),
        ascending(s) ==> ascending(without_day(s, d)),
    decreases s.len(),
{
    broadcast use vstd::seq_lib::group_to_multiset_ensures;
    broadcast use vstd::multiset::group_multiset_axioms;
    if s.len() > 0 {
        let init = s.drop_last();
        let l = s.last();
        lemma_without_day(init, d);
        let w0 = without_day(init, d);
        assert(init.push(l) =~= s);
        assert forall|x: u8| #[trigger] without_day(s, d).contains(x) implies s.contains(x) by {
            if l != d && x == l {
                assert(s[s.len() - 1] == l);
            } else {
                if l != d {
                    let k = choose|k: int| 0 <= k < without_day(s, d).len() && without_day(s, d)[k] == x;
                    assert(k < w0.len());
                    assert(w0[k] == x);
                }
                assert(w0.contains(x));
                assert(init.contains(x));
                let k = choose|k: int| 0 <= k < init.len() && init[k] == x;
                assert(s[k] == x);
            }
        }
        if l != d {
            assert(!w0.push(l).contains(d)) by {
                if w0.push(l).contains(d) {
                    let k = choose|k: int| 0 <= k < w0.push(l).len() && w0.push(l)[k] == d;
                    assert(k < w0.len());
                    assert(w0[k] == d);
                }
            }
        }
        if ascending(s) {
            assert(ascending(init));
            if l != d {
                assert forall|a: int, b: int| 0 <= a < b < w0.push(l).len() implies w0.push(l)[a] <= w0.push(l)[b] by {
                    if b == w0.len() {
                        assert(w0.contains(w0[a]));
                        assert(init.contains(w0[a]));
                        let k = choose|k: int| 0 <= k < init.len() && init[k] == w0[a];
                        assert(s[k] <= s[s.len() - 1]);
                    }
                }
            }
        }
    } else {
        assert(s.to_multiset() =~= vstd::multiset::Multiset::<u8>::empty());
    }
}

/// Picking a weekday twice gives back sorted days that did not hold it.
pub proof fn law_weekday_pick_undone(old: Seq<u8>, mid: Seq<u8>, new: Seq<u8>, d: u8)
    requires
        ascending(old),
        !old.contains(d),
        days_toggled(old, mid, d),
        days_toggled(mid, new, d),
    ensures
        new == old,
{
    broadcast use vstd::seq_lib::group_to_multiset_ensures;
    broadcast use vstd::multiset::group_multiset_axioms;
    assert(mid.to_multiset() == old.push(d).to_multiset());
    assert(old.push(d).contains(d)) by {
        assert(old.push(d)[old.len() as int] == d);
    }
    assert(old.push(d).to_multiset().count(d) > 0);
    assert(mid.to_multiset().count(d) > 0);
    assert(mid.contains(d));
    assert(new == without_day(mid, d));
    lemma_without_day(mid, d);
    assert forall|x: u8| #[trigger] new.to_multiset().count(x) == old.to_multiset().count(x) by {
        if x == d {
            assert(!new.contains(d));
            assert(!old.contains(d));
        } else {
            assert(old.push(d).to_multiset() =~= old.to_multiset().insert(d));
        }
    }
    assert(new.to_multiset() =~= old.to_multiset());
    lemma_ascending_unique(new, old);
}

} // verus!
