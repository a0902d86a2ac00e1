//! The calendar page: the days a day or week view shows, the caption of the
//! period, and where the back / today / forward buttons move the anchor.
use vstd::prelude::*;
use crate::dates::{CivilDate, valid_date, key_text, key_of, parse_key, add_days, weekday_index, day_number,
    chrono_parse_ymd, chrono_add_days, weekday_of, local_today, opt_text, MIN_YEAR, MAX_YEAR};
use crate::format::{fmt_day_month_year, fmt_week_period, fmt_day_month_year_text,
    week_period_text};
use crate::source_size::views;

verus! {

#[derive(Clone, Copy, PartialEq, Eq, Debug, Structural)]
pub enum CalMode {
    Day,
    Week,
}

/// The day the calendar shows: the anchor key's day, or today where the
/// anchor is not a day key.
pub open spec fn anchor_day(anchor: Seq<char>, today: CivilDate) -> CivilDate {
    match chrono_parse_ymd(anchor) {
        Some(d) => d,
        None => today,
    }
}

fn anchor_of(anchor: &str, today: CivilDate) -> (d: CivilDate)
    requires
        valid_date(today),
    ensures
        d == anchor_day(anchor@, today),
        valid_date(d),
{
    match parse_key(anchor) {
        Some(d) => d,
        None => today,
    }
}

/// Monday of a day's week.
pub open spec fn week_start(a: CivilDate) -> Option<CivilDate> {
    chrono_add_days(a, -weekday_of(a))
}

/// The key of the day `i` days after `monday`.
pub open spec fn day_after(monday: CivilDate, i: int) -> Option<Seq<char>> {
    match chrono_add_days(monday, i) {
        Some(d) => Some(key_text(d)),
        None => None,
    }
}

/// The seven keys of the week from `monday`, where chrono reaches them all.
pub open spec fn week_keys(monday: CivilDate) -> Option<Seq<Seq<char>>> {
    if forall|i: int| 0 <= i < 7 ==> #[trigger] day_after(monday, i) is Some {
        Some(Seq::new(7, |i: int| day_after(monday, i)->0))
    } else {
        None
    }
}

/// The day keys a view shows.
pub open spec fn calendar_days(anchor: Seq<char>, mode: CalMode, today: CivilDate) -> Option<
    Seq<Seq<char>>,
> {
    let a = anchor_day(anchor, today);
    match mode {
        CalMode::Day => Some(seq![key_text(a)]),
        CalMode::Week => match week_start(a) {
            Some(m) => week_keys(m),
            None => None,
        },
    }
}

/// The caption of the period the days make up.
pub open spec fn calendar_period(days: Seq<Seq<char>>, mode: CalMode) -> Seq<char> {
    match mode {
        CalMode::Day => fmt_day_month_year_text(days[0]),
        CalMode::Week => week_period_text(days[0], days[6]),
    }
}

/// The days and the caption of a calendar view.
pub struct CalendarWindow {
    pub days: Vec<String>,
    pub period: String,
}

/// `r` is the view of `anchor` in `mode` on `today`: `None` exactly where a
/// day of the week lies outside chrono's range.
pub open spec fn window_of(r: Option<CalendarWindow>, anchor: Seq<char>, mode: CalMode, today: CivilDate) -> bool {
    match r {
        Some(w) => {
            &&& calendar_days(anchor, mode, today) == Some(views(w.days@))
            &&& w.period@ == calendar_period(views(w.days@), mode)
        },
        None => calendar_days(anchor, mode, today) is None,
    }
}

/// `k` is the key of the day numbered `n`.
pub open spec fn key_of_day(k: Seq<char>, n: int) -> bool {
    exists|d: CivilDate| valid_date(d) && day_number(d) == n && k == key_text(d)
}

/// `keys` are the keys of seven consecutive days from `first`.
pub open spec fn consecutive_days(keys: Seq<Seq<char>>, first: int) -> bool {
    &&& keys.len() == 7
    &&& forall|j: int| 0 <= j < 7 ==> #[trigger] key_of_day(keys[j], first + j)
}

fn week_from(monday: CivilDate) -> (r: Option<Vec<String>>)
    requires
        valid_date(monday),
    ensures
        match r {
            Some(v) => week_keys(monday) == Some(views(v@)) && v@.len() == 7
                && consecutive_days(views(v@), day_number(monday)),
            None => week_keys(monday) is None,
        },
{
    let mut days: Vec<String> = Vec::new();
    let mut i: i64 = 0;
    while i < 7
        invariant
            0 <= i <= 7,
            valid_date(monday),
            days@.len() == i,
            forall|j: int| 0 <= j < i ==> #[trigger] day_after(monday, j) == Some(days@[j]@),
            forall|j: int| 0 <= j < i ==> #[trigger] key_of_day(days@[j]@, day_number(monday) + j),
        decreases 7 - i,
    {
        match add_days(monday, i) {
            Some(d) => {
                let ghost before = days@;
                days.push(key_of(d));
                proof {
                    assert forall|j: int| 0 <= j < i + 1 implies #[trigger] key_of_day(days@[j]@, day_number(monday) + j) by {
                        if j == i {
                            assert(days@[j]@ == key_text(d));
                            assert(valid_date(d));
                            assert(day_number(d) == day_number(monday) + j);
                        } else {
                            assert(days@[j] == before[j]);
                        }
                    }
                }
            },
            None => {
                proof {
                    assert(!(day_after(monday, i as int) is Some));
                }
                return None;
            },
        }
        i = i + 1;
    }
    proof {
        assert forall|j: int| 0 <= j < 7 implies #[trigger] day_after(monday, j) is Some by {
            assert(day_after(monday, j) == Some(days@[j]@));
        }
        assert(Seq::new(7, |j: int| day_after(monday, j)->0) =~= views(days@));
        assert forall|j: int| 0 <= j < 7 implies #[trigger] key_of_day(views(days@)[j], day_number(monday) + j) by {
            assert(views(days@)[j] == days@[j]@);
            assert(key_of_day(days@[j]@, day_number(monday) + j));
        }
    }
    Some(days)
}

/// The days a calendar view anchored at `anchor` shows on `today`, with the
/// caption of their period.
pub fn calendar_window_on(anchor: &str, mode: CalMode, today: CivilDate) -> (r: Option<CalendarWindow>)
    requires
        valid_date(today),
    ensures
        window_of(r, anchor@, mode, today),
        mode == CalMode::Day ==> r is Some,
        mode == CalMode::Week && r is Some ==> exists|monday: int| {
            &&& (monday + 3) % 7 == 0
            &&& day_number(anchor_day(anchor@, today)) - 6 <= monday <= day_number(anchor_day(anchor@, today))
            &&& #[trigger] consecutive_days(views(r->0.days@), monday)
        },
{
    let a = anchor_of(anchor, today);
    match mode {
        CalMode::Day => {
            let k = key_of(a);
            let period = fmt_day_month_year(k.as_str());
            let mut days: Vec<String> = Vec::new();
            days.push(k);
            proof {
                assert(views(days@) =~= seq![key_text(a)]);
            }
            Some(CalendarWindow { days, period })
        },
        CalMode::Week => {
            let w = weekday_index(a);
            let monday = match add_days(a, -(w as i64)) {
                Some(m) => m,
                None => {
                    return None;
                },
            };
            proof {
                let x = day_number(a) + 3;
                assert((x - x % 7) % 7 == 0) by (nonlinear_arith);
                assert(day_number(monday) + 3 == x - x % 7);
            }
            match week_from(monday) {
                Some(days) => {
                    let period = fmt_week_period(days[0].as_str(), days[6].as_str());
                    let r = Some(CalendarWindow { days, period });
                    proof {
                        assert(consecutive_days(views(r->0.days@), day_number(monday)));
                    }
                    r
                },
                None => None,
            }
        },
    }
}

/// The calendar view of the anchor, on today's date.
pub fn calendar_window(anchor: &str, mode: CalMode) -> (r: Option<CalendarWindow>)
    ensures
        exists|t: CivilDate| valid_date(t) && window_of(r, anchor@, mode, t),
        mode == CalMode::Day ==> r is Some,
{
    let t = local_today();
    calendar_window_on(anchor, mode, t)
}

/// Days one press of the back or forward button moves the anchor.
pub open spec fn step_days(mode: CalMode, delta: int) -> int {
    if mode == CalMode::Week {
        delta * 7
    } else {
        delta
    }
}

/// Where `delta` presses move the anchor: today for 0, else that many days
/// (weeks in the week view) from the anchor's day; `None` where the shift
/// overflows or leaves chrono's range.
pub open spec fn calendar_step_text(anchor: Seq<char>, mode: CalMode, delta: int, today: CivilDate) -> Option<Seq<char>> {
    if delta == 0 {
        Some(key_text(today))
    } else if !(i64::MIN <= step_days(mode, delta) <= i64::MAX) {
        None
    } else {
        match chrono_add_days(anchor_day(anchor, today), step_days(mode, delta)) {
            Some(d) => Some(key_text(d)),
            None => None,
        }
    }
}

/// The anchor after the back (`-1`), today (`0`) or forward (`1`) button.
pub fn calendar_step_on(anchor: &str, mode: CalMode, delta: i64, today: CivilDate) -> (r: Option<String>)
    requires
        valid_date(today),
    ensures
        opt_text(r) == calendar_step_text(anchor@, mode, delta as int, today),
        MIN_YEAR < anchor_day(anchor@, today).year < MAX_YEAR && -52 <= delta <= 52 ==> r is Some,
        delta != 0 && r is Some ==> key_of_day(r->0@, day_number(anchor_day(anchor@, today)) + step_days(mode, delta as int)),
{
    if delta == 0 {
        return Some(key_of(today));
    }
    let a = anchor_of(anchor, today);
    let step = match mode {
        CalMode::Week => match delta.checked_mul(7) {
            Some(s) => s,
            None => {
                return None;
            },
        },
        CalMode::Day => delta,
    };
    match add_days(a, step) {
        Some(d) => {
            let k = key_of(d);
            proof {
                assert(key_of_day(k@, day_number(a) + step));
            }
            Some(k)
        },
        None => None,
    }
}

/// The anchor after a button press, on today's date.
pub fn calendar_step(anchor: &str, mode: CalMode, delta: i64) -> (r: Option<String>)
    ensures
        exists|t: CivilDate| valid_date(t) && opt_text(r) == calendar_step_text(anchor@, mode, delta as int, t),
{
    let t = local_today();
    calendar_step_on(anchor, mode, delta, t)
}

} // verus!
