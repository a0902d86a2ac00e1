//! The day of the next occurrence of a repeating task.
use vstd::prelude::*;
use crate::dates::{CivilDate, valid_date, chrono_add_days, chrono_parse_ymd, weekday_of,
    month_shift, add_days, add_months, parse_key, weekday_index, key_of, key_text, local_today,
    lemma_month_shift_valid, opt_text, month_index, day_number};
use crate::model::{Todo, RecurrenceRule, day_dates_cuttable, task_date_of, task_date};

verus! {

/// Where the next occurrence is counted from: the task's day when it has a
/// parsable one, otherwise `today`.
pub open spec fn recurrence_base(t: Todo, today: CivilDate) -> CivilDate {
    match task_date_of(t).0 {
        Some(d) => match chrono_parse_ymd(d) {
            Some(b) => b,
            None => today,
        },
        None => today,
    }
}

/// `months` moved forward `count` times, one step at a time.
pub open spec fn repeat_months(d: CivilDate, count: nat, months: int) -> Option<CivilDate>
    decreases count,
{
    if count == 0 {
        Some(d)
    } else {
        match month_shift(d, months) {
            Some(e) => repeat_months(e, (count - 1) as nat, months),
            None => None,
        }
    }
}

/// From `d`, the first day whose ISO weekday is listed, checking at most
/// `budget` days; after that the day following the last one checked.
pub open spec fn scan_weekdays(d: CivilDate, days: Seq<u8>, budget: nat) -> Option<CivilDate>
    decreases budget,
{
    if budget == 0 || days.contains((weekday_of(d) + 1) as u8) {
        Some(d)
    } else {
        match chrono_add_days(d, 1) {
            Some(e) => scan_weekdays(e, days, (budget - 1) as nat),
            None => None,
        }
    }
}

/// The next occurrence after `base` under `rule`.
pub open spec fn next_occurrence(rule: RecurrenceRule, base: CivilDate) -> Option<CivilDate> {
    if rule.frequency == 0 {
        chrono_add_days(base, rule.interval as int)
    } else if rule.frequency == 1 {
        if rule.days_of_week@.len() == 0 {
            chrono_add_days(base, 7 * rule.interval as int)
        } else {
            match chrono_add_days(base, 1) {
                Some(d) => scan_weekdays(d, rule.days_of_week@, 8),
                None => None,
            }
        }
    } else if rule.frequency == 2 {
        repeat_months(base, rule.interval as nat, 1)
    } else {
        repeat_months(base, rule.interval as nat, 12)
    }
}

pub open spec fn next_recurrence_text(rule: RecurrenceRule, t: Todo, today: CivilDate) -> Option<Seq<char>> {
    match next_occurrence(rule, recurrence_base(t, today)) {
        Some(d) => Some(key_text(d)),
        None => None,
    }
}

fn has_day(days: &Vec<u8>, x: u8) -> (r: bool)
    ensures
        r == days@.contains(x),
{
    let mut i: usize = 0;
    while i < days.len()
        invariant
            i <= days@.len(),
            forall|j: int| 0 <= j < i ==> days@[j] != x,
        decreases days@.len() - i,
    {
        if days[i] == x {
            return true;
        }
        i = i + 1;
    }
    false
}

fn step_months(d: CivilDate, count: u32, months: u32) -> (r: Option<CivilDate>)
    requires
        valid_date(d),
    ensures
        r == repeat_months(d, count as nat, months as int),
        r matches Some(e) ==> valid_date(e),
{
    let mut cur = d;
    let mut k: u32 = 0;
    while k < count
        invariant
            valid_date(cur),
            k <= count,
            repeat_months(d, count as nat, months as int) == repeat_months(cur, (count - k) as nat, months as int),
        decreases count - k,
    {
        proof {
            lemma_month_shift_valid(cur, months as int);
        }
        match add_months(cur, months) {
            Some(e) => {
                cur = e;
            },
            None => {
                return None;
            },
        }
        k = k + 1;
    }
    Some(cur)
}

/// The ISO weekday of the day `g` days after `b` is one the rule lists.
pub open spec fn chosen_on(rule: RecurrenceRule, b: CivilDate, g: int) -> bool {
    rule.days_of_week@.contains((((weekday_of(b) + g) % 7) + 1) as u8)
}

/// What the next occurrence `d` is, in the calendar, for `rule` counted
/// from `b`: `interval` days on (daily); `7 * interval` days on (weekly);
/// with weekdays chosen, the first day 1 to 8 days on whose ISO weekday is
/// chosen (the ninth day when none of them is); `interval` months on
/// (monthly) or `12 * interval` (yearly), on the same day of the month or
/// the last day of a shorter month.
pub open spec fn next_in_calendar(rule: RecurrenceRule, b: CivilDate, d: CivilDate) -> bool {
    let gap = day_number(d) - day_number(b);
    if rule.frequency == 0 {
        gap == rule.interval
    } else if rule.frequency == 1 {
        if rule.days_of_week@.len() == 0 {
            gap == 7 * rule.interval
        } else {
            &&& 1 <= gap <= 9
            &&& (gap < 9 ==> chosen_on(rule, b, gap))
            &&& forall|g: int| 1 <= g < gap ==> !#[trigger] chosen_on(rule, b, g)
        }
    } else if rule.frequency == 2 {
        month_index(d) == month_index(b) + rule.interval && d.day <= b.day
    } else {
        month_index(d) == month_index(b) + 12 * rule.interval && d.day <= b.day
    }
}

proof fn lemma_weekday_step(b: CivilDate, d: CivilDate, g: int)
    requires
        day_number(d) == day_number(b) + g,
    ensures
        weekday_of(d) == (weekday_of(b) + g) % 7,
{
    let a = day_number(b) + 3;
    vstd::arithmetic::div_mod::lemma_add_mod_noop(a, g, 7);
    vstd::arithmetic::div_mod::lemma_add_mod_noop(a % 7, g, 7);
}

/// The next occurrence after `base` under `rule`.
fn next_occurrence_from(rule: &RecurrenceRule, base: CivilDate) -> (r: Option<CivilDate>)
    requires
        valid_date(base),
    ensures
        r == next_occurrence(*rule, base),
        r matches Some(d) ==> valid_date(d) && next_in_calendar(*rule, base, d),
{
    let r = if rule.frequency == 0 {
        add_days(base, rule.interval as i64)
    } else if rule.frequency == 1 {
        if rule.days_of_week.len() == 0 {
            add_days(base, 7 * rule.interval as i64)
        } else {
            match add_days(base, 1) {
                None => None,
                Some(first) => {
                    let mut d = first;
                    let mut budget: u32 = 8;
                    let mut found: Option<CivilDate> = None;
                    let mut done = false;
                    while !done
                        invariant
                            valid_date(d),
                            valid_date(base),
                            budget <= 8,
                            rule.days_of_week@.len() > 0,
                            rule.frequency == 1,
                            day_number(d) == day_number(base) + 1 + (8 - budget),
                            forall|g: int| 1 <= g < 1 + (8 - budget) ==> !#[trigger] chosen_on(*rule, base, g),
                            !done ==> scan_weekdays(first, rule.days_of_week@, 8) == scan_weekdays(d, rule.days_of_week@, budget as nat),
                            done ==> found == scan_weekdays(first, rule.days_of_week@, 8),
                            done ==> (found matches Some(x) ==> valid_date(x) && next_in_calendar(*rule, base, x)),
                        decreases (if done { 0int } else { 1int + budget as int }),
                    {
                        let ghost gap: int = 1 + (8 - budget);
                        proof {
                            lemma_weekday_step(base, d, gap);
                        }
                        if budget == 0 {
                            found = Some(d);
                            done = true;
                        } else {
                            let wd = weekday_index(d);
                            if has_day(&rule.days_of_week, wd as u8 + 1) {
                                found = Some(d);
                                done = true;
                                proof {
                                    assert(chosen_on(*rule, base, gap));
                                }
                            } else {
                                proof {
                                    assert(!chosen_on(*rule, base, gap));
                                }
                                match add_days(d, 1) {
                                    Some(e) => {
                                        d = e;
                                        budget = budget - 1;
                                    },
                                    None => {
                                        found = None;
                                        done = true;
                                    },
                                }
                            }
                        }
                    }
                    found
                },
            }
        }
    } else if rule.frequency == 2 {
        step_months(base, rule.interval, 1)
    } else {
        step_months(base, rule.interval, 12)
    };
    proof {
        if rule.frequency >= 2 && r is Some {
            let months: int = if rule.frequency == 2 { 1 } else { 12 };
            lemma_repeat_months_index(base, rule.interval as nat, months);
            assert(rule.interval as nat * months == if rule.frequency == 2 { rule.interval as int } else { 12 * rule.interval as int });
        }
    }
    r
}

/// The day of the next occurrence of a repeating task, counted from its day
/// (or from `today` when it has none); `None` when that day falls outside
/// chrono's range (where plain date arithmetic panics). The day stands in
/// the calendar as `next_in_calendar` says.
pub fn next_recurrence_date_from(rule: &RecurrenceRule, t: &Todo, today: CivilDate) -> (r: Option<String>)
    requires
        day_dates_cuttable(*t),
        valid_date(today),
    ensures
        opt_text(r) == next_recurrence_text(*rule, *t, today),
        r matches Some(k) ==> exists|d: CivilDate| #![auto]
            valid_date(d) && k@ == key_text(d) && next_in_calendar(*rule, recurrence_base(*t, today), d),
{
    let (date, _conflict) = task_date(t);
    let base = match date {
        Some(d) => match parse_key(d.as_str()) {
            Some(b) => b,
            None => today,
        },
        None => today,
    };
    match next_occurrence_from(rule, base) {
        Some(d) => Some(key_of(d)),
        None => None,
    }
}

/// The next occurrence's day key, counted from today when the task has no day.
pub fn next_recurrence_date(rule: &RecurrenceRule, t: &Todo) -> (r: Option<String>)
    requires
        day_dates_cuttable(*t),
    ensures
        exists|today: CivilDate| valid_date(today) && opt_text(r) == next_recurrence_text(*rule, *t, today),
{
    let today = local_today();
    next_recurrence_date_from(rule, t, today)
}


/// Each step of `months` months lands that many months on, on the same day
/// of the month or, where that month is shorter, on an earlier one.
proof fn lemma_repeat_months_index(d: CivilDate, count: nat, months: int)
    requires
        repeat_months(d, count, months) is Some,
    ensures
        month_index(repeat_months(d, count, months)->0) == month_index(d) + count * months,
        repeat_months(d, count, months)->0.day <= d.day,
    decreases count,
{
    if count > 0 {
        let e = month_shift(d, months)->0;
        let idx = month_index(d) + months;
        assert(idx == (idx / 12) * 12 + idx % 12);
        assert(month_index(e) == idx);
        lemma_repeat_months_index(e, (count - 1) as nat, months);
        assert(count * months == months + (count - 1) as nat * months) by (nonlinear_arith)
            requires count > 0;
    }
}

/// A monthly rule moves the task on by whole calendar months: with an
/// interval of `n`, the next occurrence is `n` months after the day it is
/// counted from (a yearly rule, `12 * n` months), on the same day of the
/// month or the last day of a shorter month.
pub proof fn law_monthly_and_yearly_steps(rule: RecurrenceRule, t: Todo, today: CivilDate, k: Seq<char>)
    requires
        rule.frequency >= 2,
        next_recurrence_text(rule, t, today) == Some(k),
    ensures
        exists|d: CivilDate| #![auto]
            k == key_text(d)
            && month_index(d) == month_index(recurrence_base(t, today))
                + if rule.frequency == 2 { rule.interval as int } else { 12 * rule.interval as int }
            && d.day <= recurrence_base(t, today).day,
{
    let base = recurrence_base(t, today);
    let months: int = if rule.frequency == 2 { 1 } else { 12 };
    assert(next_occurrence(rule, base) == repeat_months(base, rule.interval as nat, months));
    let d = next_occurrence(rule, base)->0;
    lemma_repeat_months_index(base, rule.interval as nat, months);
    assert(rule.interval as nat * months == if rule.frequency == 2 { rule.interval as int } else { 12 * rule.interval as int });
    assert(k == key_text(d));
}

} // verus!
