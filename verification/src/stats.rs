//! Completion statistics: how many tasks were done in all, in the last week
//! and month, and the current and the best run of days with completions.
use vstd::prelude::*;
use crate::dates::{
    add_days, chrono_add_days, chrono_parse_ymd, date_before, date_less, day_ordinal,
    lemma_day_ordinal, local_today, parse_key, valid_date, CivilDate,
};
use crate::model::{completions_cuttable, date_only, opt_date_cuttable, opt_date_part, Todo};

verus! {

/// The day a task was completed on, read from its completion stamp.
pub open spec fn completion_day(t: Todo) -> Option<CivilDate> {
    match opt_date_part(t.completed_at) {
        Some(k) => chrono_parse_ymd(k),
        None => None,
    }
}

/// The completion days of the tasks, one per completed task, in list order.
pub open spec fn done_days(ts: Seq<Todo>) -> Seq<CivilDate>
    decreases ts.len(),
{
    if ts.len() == 0 {
        seq![]
    } else {
        match completion_day(ts.last()) {
            Some(d) => done_days(ts.drop_last()).push(d),
            None => done_days(ts.drop_last()),
        }
    }
}

/// How many of the days come after `cutoff`.
pub open spec fn count_after(ds: Seq<CivilDate>, cutoff: CivilDate) -> int
    decreases ds.len(),
{
    if ds.len() == 0 {
        0
    } else {
        count_after(ds.drop_last(), cutoff) + if date_before(cutoff, ds.last()) {
            1int
        } else {
            0int
        }
    }
}

/// The day `j` days before `d`, stepping back one day at a time.
pub open spec fn days_back(d: CivilDate, j: nat) -> Option<CivilDate>
    decreases j,
{
    if j == 0 {
        Some(d)
    } else {
        match chrono_add_days(d, -1) {
            Some(p) => days_back(p, (j - 1) as nat),
            None => None,
        }
    }
}

/// `d` and the `k - 1` days before it all have completions, the day
/// before those does not: a run of `k` days ending on `d`.
pub open spec fn run_ending(ds: Seq<CivilDate>, d: CivilDate, k: nat) -> bool {
    &&& forall|j: nat| j < k ==> (#[trigger] days_back(d, j) matches Some(e) && ds.contains(e))
    &&& !(days_back(d, k) matches Some(e) && ds.contains(e))
}

/// The statistics of the statistics page.
#[derive(PartialEq, Eq, Debug, Structural)]
pub struct CompletionStats {
    pub total: usize,
    pub last7: usize,
    pub last30: usize,
    pub current_streak: usize,
    pub best_streak: usize,
}

/// The days the statistics step back through all stay in chrono's range.
pub open spec fn stats_in_range(ts: Seq<Todo>, today: CivilDate) -> bool {
    &&& chrono_add_days(today, -7) is Some
    &&& chrono_add_days(today, -30) is Some
    &&& (!done_days(ts).contains(today) ==> chrono_add_days(today, -1) is Some)
    &&& forall|i: int| 0 <= i < done_days(ts).len() ==> chrono_add_days(#[trigger] done_days(ts)[i], -1) is Some
}

/// The statistics of the tasks on `today`: completions in all, after the
/// days a week and a month back, the run of days ending today (or
/// yesterday, while today has none yet), and the longest run.
pub open spec fn stats_of(ts: Seq<Todo>, today: CivilDate, s: CompletionStats) -> bool {
    let ds = done_days(ts);
    let start = if ds.contains(today) {
        today
    } else {
        chrono_add_days(today, -1)->Some_0
    };
    &&& s.total == ds.len()
    &&& s.last7 == count_after(ds, chrono_add_days(today, -7)->Some_0)
    &&& s.last30 == count_after(ds, chrono_add_days(today, -30)->Some_0)
    &&& run_ending(ds, start, s.current_streak as nat)
    &&& forall|i: int, k: nat| 0 <= i < ds.len() && #[trigger] run_ending(ds, ds[i], k) ==> k <= s.best_streak
    &&& (ds.len() == 0 ==> s.best_streak == 0)
    &&& (ds.len() > 0 ==> exists|i: int| 0 <= i < ds.len() && #[trigger] run_ending(ds, ds[i], s.best_streak as nat))
}

/// A run ending on a day with completions is one longer than the run
/// ending the day before.
proof fn lemma_run_step(ds: Seq<CivilDate>, d: CivilDate, p: CivilDate, k: nat)
    requires
        ds.contains(d),
        chrono_add_days(d, -1) == Some(p),
        run_ending(ds, p, k),
    ensures
        run_ending(ds, d, k + 1),
{
    assert forall|j: nat| j < k + 1 implies (#[trigger] days_back(d, j) matches Some(e) && ds.contains(e)) by {
        if j > 0 {
            assert(days_back(d, j) == days_back(p, (j - 1) as nat));
            assert(days_back(p, (j - 1) as nat) matches Some(e) && ds.contains(e));
        }
    }
    assert(days_back(d, k + 1) == days_back(p, k));
}

/// A run is as long as it is: two lengths for one end day agree.
proof fn lemma_run_unique(ds: Seq<CivilDate>, d: CivilDate, k: nat, m: nat)
    requires
        run_ending(ds, d, k),
        run_ending(ds, d, m),
    ensures
        k == m,
{
    if k < m {
        assert(days_back(d, k) matches Some(e) && ds.contains(e));
    } else if m < k {
        assert(days_back(d, m) matches Some(e) && ds.contains(e));
    }
}

pub(crate) fn done_days_of(todos: &[Todo]) -> (r: Vec<CivilDate>)
    requires
        completions_cuttable(todos@),
    ensures
        r@ == done_days(todos@),
        forall|i: int| 0 <= i < r@.len() ==> valid_date(#[trigger] r@[i]),
{
    let mut r: Vec<CivilDate> = Vec::new();
    let mut i: usize = 0;
    proof {
        assert(todos@.take(0) =~= Seq::<Todo>::empty());
    }
    while i < todos.len()
        invariant
            i <= todos@.len(),
            completions_cuttable(todos@),
            r@ == done_days(todos@.take(i as int)),
            forall|j: int| 0 <= j < r@.len() ==> valid_date(#[trigger] r@[j]),
        decreases todos@.len() - i,
    {
        proof {
            assert(todos@.take(i + 1).drop_last() =~= todos@.take(i as int));
            assert(todos@.take(i + 1).last() == todos@[i as int]);
            assert(opt_date_cuttable(todos@[i as int].completed_at));
        }
        match date_only(&todos[i].completed_at) {
            Some(k) => match parse_key(k.as_str()) {
                Some(d) => {
                    r.push(d);
                },
                None => {},
            },
            None => {},
        }
        i = i + 1;
    }
    proof {
        assert(todos@.take(todos@.len() as int) =~= todos@);
    }
    r
}

fn has_day(ds: &Vec<CivilDate>, d: CivilDate) -> (r: bool)
    ensures
        r == ds@.contains(d),
{
    let mut i: usize = 0;
    while i < ds.len()
        invariant
            i <= ds@.len(),
            forall|j: int| 0 <= j < i ==> ds@[j] != d,
        decreases ds@.len() - i,
    {
        if ds[i] == d {
            return true;
        }
        i = i + 1;
    }
    false
}

fn count_after_of(ds: &Vec<CivilDate>, cutoff: CivilDate) -> (n: usize)
    ensures
        n == count_after(ds@, cutoff),
{
    let mut n: usize = 0;
    let mut i: usize = 0;
    proof {
        assert(ds@.take(0) =~= Seq::<CivilDate>::empty());
    }
    while i < ds.len()
        invariant
            i <= ds@.len(),
            n == count_after(ds@.take(i as int), cutoff),
            n <= i,
        decreases ds@.len() - i,
    {
        proof {
            assert(ds@.take(i + 1).drop_last() =~= ds@.take(i as int));
        }
        if date_less(cutoff, ds[i]) {
            n = n + 1;
        }
        i = i + 1;
    }
    proof {
        assert(ds@.take(ds@.len() as int) =~= ds@);
    }
    n
}

/// The run of days with completions ending on `d`; `None` where stepping
/// back leaves chrono's range from a day with completions.
fn run_length(ds: &Vec<CivilDate>, d: CivilDate) -> (r: Option<usize>)
    requires
        valid_date(d),
    ensures
        match r {
            Some(k) => run_ending(ds@, d, k as nat) && (ds@.contains(d) ==> chrono_add_days(d, -1) is Some),
            None => exists|e: CivilDate| ds@.contains(e) && chrono_add_days(e, -1) is None,
        },
{
    let mut cur = d;
    let mut k: usize = 0;
    while has_day(ds, cur)
        invariant
            valid_date(cur),
            valid_date(d),
            k <= day_ordinal(d) - day_ordinal(cur),
            k > 0 ==> chrono_add_days(d, -1) is Some,
            k == 0 ==> cur == d,
            forall|s: nat| run_ending(ds@, cur, s) ==> run_ending(ds@, d, (k + s) as nat),
        decreases day_ordinal(cur),
    {
        proof {
            lemma_day_ordinal(cur, cur);
        }
        match add_days(cur, -1) {
            Some(p) => {
                proof {
                    lemma_day_ordinal(p, cur);
                    assert forall|s: nat| run_ending(ds@, p, s) implies run_ending(ds@, d, (k + 1 + s) as nat) by {
                        lemma_run_step(ds@, cur, p, s);
                    }
                }
                proof {
                    lemma_day_ordinal(d, d);
                    assert(k + 1 <= day_ordinal(d) - day_ordinal(p));
                }
                cur = p;
                k = k + 1;
            },
            None => {
                return None;
            },
        }
    }
    proof {
        assert(run_ending(ds@, cur, 0));
    }
    Some(k)
}

/// The completion statistics of the tasks on `today` (see `stats_of`);
/// `None` where a step back leaves chrono's range, where counting panics.
pub fn completion_stats_on(todos: &[Todo], today: CivilDate) -> (r: Option<CompletionStats>)
    requires
        completions_cuttable(todos@),
        valid_date(today),
    ensures
        r is Some <==> stats_in_range(todos@, today),
        r matches Some(s) ==> stats_of(todos@, today, s),
{
    let ds = done_days_of(todos);
    let ghost dv = ds@;
    let week = match add_days(today, -7) {
        Some(c) => c,
        None => {
            return None;
        },
    };
    let month = match add_days(today, -30) {
        Some(c) => c,
        None => {
            return None;
        },
    };
    let total = ds.len();
    let last7 = count_after_of(&ds, week);
    let last30 = count_after_of(&ds, month);
    let start = if has_day(&ds, today) {
        today
    } else {
        match add_days(today, -1) {
            Some(y) => y,
            None => {
                return None;
            },
        }
    };
    let current = match run_length(&ds, start) {
        Some(k) => k,
        None => {
            return None;
        },
    };
    let mut best: usize = 0;
    let mut i: usize = 0;
    while i < ds.len()
        invariant
            dv == ds@,
            dv == done_days(todos@),
            i <= dv.len(),
            forall|j: int| 0 <= j < dv.len() ==> valid_date(#[trigger] dv[j]),
            forall|j: int| 0 <= j < i ==> chrono_add_days(#[trigger] dv[j], -1) is Some,
            forall|j: int, k: nat| 0 <= j < i && #[trigger] run_ending(dv, dv[j], k) ==> k <= best,
            i == 0 ==> best == 0,
            i > 0 ==> exists|j: int| 0 <= j < i && #[trigger] run_ending(dv, dv[j], best as nat),
        decreases dv.len() - i,
    {
        match run_length(&ds, ds[i]) {
            Some(k) => {
                proof {
                    assert(dv.contains(dv[i as int]));
                    assert(run_ending(dv, dv[i as int], k as nat));
                    let first = dv[i as int];
                    if chrono_add_days(first, -1) is None {
                        assert(days_back(first, 1) is None);
                        assert(!(days_back(first, 1) matches Some(e) && dv.contains(e)));
                    }
                }
                let ghost old_best = best;
                if k > best {
                    best = k;
                }
                proof {
                    assert forall|j: int, m: nat| 0 <= j < i + 1 && #[trigger] run_ending(dv, dv[j], m) implies m <= best by {
                        if j == i as int {
                            lemma_run_unique(dv, dv[j], m, k as nat);
                        }
                    }
                    if best == k {
                        assert(run_ending(dv, dv[i as int], best as nat));
                    }
                }
            },
            None => {
                proof {
                    let e = choose|e: CivilDate| dv.contains(e) && chrono_add_days(e, -1) is None;
                    let w = choose|w: int| 0 <= w < dv.len() && dv[w] == e;
                    assert(chrono_add_days(dv[w], -1) is None);
                }
                return None;
            },
        }
        i = i + 1;
    }
    let s = CompletionStats { total, last7, last30, current_streak: current, best_streak: best };
    proof {
        let start_s = if dv.contains(today) {
            today
        } else {
            chrono_add_days(today, -1)->Some_0
        };
        assert(start_s == start);
        assert(s.total == dv.len());
        assert(run_ending(dv, start_s, s.current_streak as nat));
        assert(i == dv.len());
        if dv.len() > 0 {
            let w = choose|j: int| 0 <= j < i && #[trigger] run_ending(dv, dv[j], best as nat);
            assert(run_ending(dv, dv[w], s.best_streak as nat));
        }
        assert(stats_of(todos@, today, s));
    }
    Some(s)
}

/// The completion statistics on the machine's local day.
pub fn completion_stats(todos: &[Todo]) -> (r: Option<CompletionStats>)
    requires
        completions_cuttable(todos@),
    ensures
        exists|today: CivilDate|
            valid_date(today) && (r is Some <==> stats_in_range(todos@, today)) && (r matches Some(
                s,
            ) ==> stats_of(todos@, today, s)),
{
    let today = local_today();
    completion_stats_on(todos, today)
}

} // verus!
