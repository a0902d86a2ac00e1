//! The completion heatmap of the statistics page: one column per calendar
//! week (Monday to Sunday) ending with the current week, a cell per day up
//! to today with its count of completed tasks, and month captions.
use vstd::prelude::*;
use crate::dates::{CivilDate, valid_date, date_before, date_less, add_days, weekday_index,
    chrono_add_days, weekday_of, decimal, push_decimal, local_today};
use crate::format::{month_long, month_long_text, month_short_text};
use crate::model::{Todo, completions_cuttable};
use crate::stats::{done_days, done_days_of};
use crate::text::push_str;

verus! {

/// How many of the days are `d`.
pub open spec fn count_on(ds: Seq<CivilDate>, d: CivilDate) -> nat
    decreases ds.len(),
{
    if ds.len() == 0 {
        0
    } else {
        count_on(ds.drop_last(), d) + if ds.last() == d {
            1nat
        } else {
            0nat
        }
    }
}

/// The Monday the grid starts on: this week's Monday, `weeks - 1` weeks back.
pub open spec fn grid_start(today: CivilDate, weeks: int) -> Option<CivilDate> {
    match chrono_add_days(today, -weekday_of(today)) {
        Some(m) => chrono_add_days(m, -7 * (weeks - 1)),
        None => None,
    }
}

/// The tooltip of a cell: "3 задач 18 сентября".
pub open spec fn heat_caption(n: nat, d: CivilDate) -> Seq<char> {
    decimal(n) + " задач "@ + decimal(d.day as nat) + " "@ + month_long_text(d.month as int)
}

/// One day of the grid.
pub struct HeatCell {
    pub day: CivilDate,
    pub count: usize,
    pub caption: String,
}

pub open spec fn cell_is(c: HeatCell, ds: Seq<CivilDate>, start: CivilDate, idx: int, today: CivilDate) -> bool {
    &&& chrono_add_days(start, idx) == Some(c.day)
    &&& !date_before(today, c.day)
    &&& c.count == count_on(ds, c.day)
    &&& c.caption@ == heat_caption(c.count as nat, c.day)
}

/// The cells of week `w`: its days in order, up to the first day after today.
pub open spec fn week_cells_are(cells: Seq<HeatCell>, ds: Seq<CivilDate>, start: CivilDate, w: int, today: CivilDate) -> bool {
    &&& cells.len() <= 7
    &&& forall|r: int| 0 <= r < cells.len() ==> cell_is(#[trigger] cells[r], ds, start, 7 * w + r, today)
    &&& cells.len() < 7 ==> (chrono_add_days(start, 7 * w + cells.len()) matches Some(d) && date_before(today, d))
}

/// The first of a month within the week from `monday` to `sunday`.
pub open spec fn month_first(monday: CivilDate, sunday: CivilDate) -> Option<CivilDate> {
    if monday.day == 1 {
        Some(monday)
    } else if sunday.month != monday.month {
        Some(CivilDate { year: sunday.year, month: sunday.month, day: 1 })
    } else {
        None
    }
}

/// The caption under week `w`: the first three letters of a month whose
/// first day falls in the week, inside the grid, with two columns of room;
/// otherwise empty. `None` where the week's days leave chrono's range.
pub open spec fn month_caption(start: CivilDate, w: int, weeks: int) -> Option<Seq<char>> {
    match chrono_add_days(start, 7 * w) {
        Some(mon) => match chrono_add_days(mon, 6) {
            Some(sun) => Some(
                match month_first(mon, sun) {
                    Some(f) => if !date_before(f, start) && w + 2 <= weeks {
                        month_short_text(f.month as int).take(3)
                    } else {
                        ""@
                    },
                    None => ""@,
                },
            ),
            None => None,
        },
        None => None,
    }
}

/// The heatmap: month captions and cells, one entry per week.
pub struct Heatmap {
    pub months: Vec<String>,
    pub weeks: Vec<Vec<HeatCell>>,
}

pub open spec fn heatmap_is(h: Heatmap, ts: Seq<Todo>, today: CivilDate, weeks: int) -> bool {
    match grid_start(today, weeks) {
        Some(start) => {
            &&& h.months@.len() == weeks
            &&& h.weeks@.len() == weeks
            &&& forall|w: int| 0 <= w < weeks ==> month_caption(start, w, weeks) == Some(#[trigger] h.months@[w]@)
            &&& forall|w: int| 0 <= w < weeks ==> week_cells_are(#[trigger] h.weeks@[w]@, done_days(ts), start, w, today)
        },
        None => false,
    }
}

/// Some day of the grid lies outside chrono's range.
pub open spec fn heat_gap(today: CivilDate, weeks: int) -> bool {
    match grid_start(today, weeks) {
        None => true,
        Some(start) => {
            ||| exists|w: int| 0 <= w < weeks && #[trigger] month_caption(start, w, weeks) is None
            ||| exists|i: int| 0 <= i < 7 * weeks && #[trigger] chrono_add_days(start, i) is None
        },
    }
}

fn month_abbr(m: u32) -> (r: &'static str)
    ensures
        r@ == month_short_text(m as int).take(3),
{
    proof {
        reveal_strlit("янв.");
        reveal_strlit("февр.");
        reveal_strlit("мар.");
        reveal_strlit("апр.");
        reveal_strlit("мая");
        reveal_strlit("июня");
        reveal_strlit("июля");
        reveal_strlit("авг.");
        reveal_strlit("сент.");
        reveal_strlit("окт.");
        reveal_strlit("нояб.");
        reveal_strlit("дек.");
    }
    if m == 1 {
        proof { reveal_strlit("янв"); assert("янв"@ =~= "янв."@.take(3)); }
        "янв"
    } else if m == 2 {
        proof { reveal_strlit("фев"); assert("фев"@ =~= "февр."@.take(3)); }
        "фев"
    } else if m == 3 {
        proof { reveal_strlit("мар"); assert("мар"@ =~= "мар."@.take(3)); }
        "мар"
    } else if m == 4 {
        proof { reveal_strlit("апр"); assert("апр"@ =~= "апр."@.take(3)); }
        "апр"
    } else if m == 5 {
        proof { assert("мая"@ =~= "мая"@.take(3)); }
        "мая"
    } else if m == 6 {
        proof { reveal_strlit("июн"); assert("июн"@ =~= "июня"@.take(3)); }
        "июн"
    } else if m == 7 {
        proof { reveal_strlit("июл"); assert("июл"@ =~= "июля"@.take(3)); }
        "июл"
    } else if m == 8 {
        proof { reveal_strlit("авг"); assert("авг"@ =~= "авг."@.take(3)); }
        "авг"
    } else if m == 9 {
        proof { reveal_strlit("сен"); assert("сен"@ =~= "сент."@.take(3)); }
        "сен"
    } else if m == 10 {
        proof { reveal_strlit("окт"); assert("окт"@ =~= "окт."@.take(3)); }
        "окт"
    } else if m == 11 {
        proof { reveal_strlit("ноя"); assert("ноя"@ =~= "нояб."@.take(3)); }
        "ноя"
    } else {
        proof { reveal_strlit("дек"); assert("дек"@ =~= "дек."@.take(3)); }
        "дек"
    }
}

fn count_of(ds: &Vec<CivilDate>, d: CivilDate) -> (n: usize)
    ensures
        n == count_on(ds@, d),
{
    let mut n: usize = 0;
    let mut i: usize = 0;
    while i < ds.len()
        invariant
            i <= ds@.len(),
            n == count_on(ds@.take(i as int), d),
            n <= i,
        decreases ds@.len() - i,
    {
        proof {
            assert(ds@.take(i + 1).drop_last() =~= ds@.take(i as int));
        }
        if ds[i] == d {
            n = n + 1;
        }
        i = i + 1;
    }
    proof {
        assert(ds@.take(ds@.len() as int) =~= ds@);
    }
    n
}

fn caption_of(n: usize, d: CivilDate) -> (r: String)
    ensures
        r@ == heat_caption(n as nat, d),
{
    let mut s = String::new();
    push_decimal(&mut s, n as u64);
    push_str(&mut s, " задач ");
    push_decimal(&mut s, d.day as u64);
    push_str(&mut s, " ");
    push_str(&mut s, month_long(d.month));
    s
}

fn month_label(start: CivilDate, w: usize, weeks: usize) -> (r: Option<String>)
    requires
        valid_date(start),
        w < weeks <= 53,
    ensures
        match r {
            Some(s) => month_caption(start, w as int, weeks as int) == Some(s@),
            None => month_caption(start, w as int, weeks as int) is None,
        },
{
    let mon = match add_days(start, 7 * w as i64) {
        Some(m) => m,
        None => {
            return None;
        },
    };
    let sun = match add_days(mon, 6) {
        Some(s) => s,
        None => {
            return None;
        },
    };
    let first = if mon.day == 1 {
        Some(mon)
    } else if sun.month != mon.month {
        Some(CivilDate { year: sun.year, month: sun.month, day: 1 })
    } else {
        None
    };
    let label = match first {
        Some(f) => if !date_less(f, start) && w + 2 <= weeks {
            month_abbr(f.month).to_owned()
        } else {
            String::new()
        },
        None => String::new(),
    };
    proof {
        reveal_strlit("");
        assert(""@ =~= Seq::<char>::empty());
        assert(label@ == month_caption(start, w as int, weeks as int)->0);
    }
    Some(label)
}

fn week_cells(ds: &Vec<CivilDate>, start: CivilDate, w: usize, today: CivilDate) -> (r: Option<Vec<HeatCell>>)
    requires
        valid_date(start),
        w < 53,
    ensures
        match r {
            Some(cells) => {
                &&& week_cells_are(cells@, ds@, start, w as int, today)
                &&& forall|k: int| 0 <= k < 7 ==> #[trigger] chrono_add_days(start, 7 * w + k) is Some
            },
            None => exists|k: int| 0 <= k < 7 && #[trigger] chrono_add_days(start, 7 * w + k) is None,
        },
{
    let mut days: Vec<CivilDate> = Vec::new();
    let mut k: usize = 0;
    while k < 7
        invariant
            k <= 7,
            valid_date(start),
            w < 53,
            days@.len() == k,
            forall|j: int| 0 <= j < k ==> chrono_add_days(start, 7 * w + j) == Some(#[trigger] days@[j]),
        decreases 7 - k,
    {
        match add_days(start, (7 * w + k) as i64) {
            Some(d) => {
                days.push(d);
            },
            None => {
                return None;
            },
        }
        k = k + 1;
    }
    let mut cells: Vec<HeatCell> = Vec::new();
    let mut r: usize = 0;
    while r < 7
        invariant
            r <= 7,
            days@.len() == 7,
            forall|j: int| 0 <= j < 7 ==> chrono_add_days(start, 7 * w + j) == Some(#[trigger] days@[j]),
            cells@.len() == r,
            forall|j: int| 0 <= j < r ==> cell_is(#[trigger] cells@[j], ds@, start, 7 * w + j, today),
        decreases 7 - r,
    {
        let d = days[r];
        if date_less(today, d) {
            proof {
                assert(chrono_add_days(start, 7 * w + cells@.len()) == Some(days@[r as int]));
                assert forall|j: int| 0 <= j < 7 implies #[trigger] chrono_add_days(start, 7 * w + j) is Some by {
                    assert(chrono_add_days(start, 7 * w + j) == Some(days@[j]));
                }
            }
            return Some(cells);
        }
        let n = count_of(ds, d);
        cells.push(HeatCell { day: d, count: n, caption: caption_of(n, d) });
        r = r + 1;
    }
    proof {
        assert forall|j: int| 0 <= j < 7 implies #[trigger] chrono_add_days(start, 7 * w + j) is Some by {
            assert(chrono_add_days(start, 7 * w + j) == Some(days@[j]));
        }
    }
    Some(cells)
}

/// The heatmap of `weeks` weeks ending with today's week.
pub fn heatmap_on(todos: &[Todo], today: CivilDate, weeks: usize) -> (r: Option<Heatmap>)
    requires
        valid_date(today),
        4 <= weeks <= 53,
        completions_cuttable(todos@),
    ensures
        match r {
            Some(h) => heatmap_is(h, todos@, today, weeks as int),
            None => heat_gap(today, weeks as int),
        },
{
    let dow = weekday_index(today);
    let monday = match add_days(today, -(dow as i64)) {
        Some(m) => m,
        None => {
            return None;
        },
    };
    let start = match add_days(monday, -7 * (weeks as i64 - 1)) {
        Some(s) => s,
        None => {
            return None;
        },
    };
    proof {
        assert(grid_start(today, weeks as int) == Some(start));
    }
    let ds = done_days_of(todos);
    let mut months: Vec<String> = Vec::new();
    let mut cols: Vec<Vec<HeatCell>> = Vec::new();
    let mut w: usize = 0;
    while w < weeks
        invariant
            w <= weeks <= 53,
            valid_date(start),
            grid_start(today, weeks as int) == Some(start),
            ds@ == done_days(todos@),
            months@.len() == w,
            cols@.len() == w,
            forall|x: int| 0 <= x < w ==> month_caption(start, x, weeks as int) == Some(#[trigger] months@[x]@),
            forall|x: int| 0 <= x < w ==> week_cells_are(#[trigger] cols@[x]@, done_days(todos@), start, x, today),
        decreases weeks - w,
    {
        match month_label(start, w, weeks) {
            Some(l) => {
                months.push(l);
            },
            None => {
                return None;
            },
        }
        match week_cells(&ds, start, w, today) {
            Some(c) => {
                cols.push(c);
            },
            None => {
                proof {
                    let k = choose|k: int| 0 <= k < 7 && #[trigger] chrono_add_days(start, 7 * w + k) is None;
                    assert(chrono_add_days(start, 7 * w + k) is None);
                }
                return None;
            },
        }
        w = w + 1;
    }
    Some(Heatmap { months, weeks: cols })
}

/// The heatmap of `weeks` weeks ending with the current week, today.
pub fn heatmap(todos: &[Todo], weeks: usize) -> (r: Option<Heatmap>)
    requires
        4 <= weeks <= 53,
        completions_cuttable(todos@),
    ensures
        exists|t: CivilDate| valid_date(t) && match r {
            Some(h) => heatmap_is(h, todos@, t, weeks as int),
            None => heat_gap(t, weeks as int),
        },
{
    let t = local_today();
    heatmap_on(todos, t, weeks)
}

} // verus!
