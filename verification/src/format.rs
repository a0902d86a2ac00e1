//! Russian date labels (the ru-RU `Intl.DateTimeFormat` shapes the agenda
//! shows), times of day and the description of a recurrence rule.
use vstd::prelude::*;
use vstd::utf8::*;
use crate::dates::{CivilDate, decimal, zero_padded, chrono_parse_ymd, weekday_of, day_number, parse_key, weekday_index, push_decimal, push_zero_padded};
use crate::model::RecurrenceRule;
use crate::text::{push_char, push_str, chars_of, string_of};

verus! {

broadcast use vstd::utf8::encode_utf8_decode_utf8;

// ---------------------------------------------------------------------------
// Names
// ---------------------------------------------------------------------------

/// Short month names, genitive ("18 сент.").
pub open spec fn month_short_text(m: int) -> Seq<char> {
    if m == 1 { "янв."@ }
    else if m == 2 { "февр."@ }
    else if m == 3 { "мар."@ }
    else if m == 4 { "апр."@ }
    else if m == 5 { "мая"@ }
    else if m == 6 { "июня"@ }
    else if m == 7 { "июля"@ }
    else if m == 8 { "авг."@ }
    else if m == 9 { "сент."@ }
    else if m == 10 { "окт."@ }
    else if m == 11 { "нояб."@ }
    else { "дек."@ }
}

/// Full month names, genitive ("18 сентября").
pub open spec fn month_long_text(m: int) -> Seq<char> {
    if m == 1 { "января"@ }
    else if m == 2 { "февраля"@ }
    else if m == 3 { "марта"@ }
    else if m == 4 { "апреля"@ }
    else if m == 5 { "мая"@ }
    else if m == 6 { "июня"@ }
    else if m == 7 { "июля"@ }
    else if m == 8 { "августа"@ }
    else if m == 9 { "сентября"@ }
    else if m == 10 { "октября"@ }
    else if m == 11 { "ноября"@ }
    else { "декабря"@ }
}

/// Short weekday names, Monday first.
pub open spec fn weekday_short_text(w: int) -> Seq<char> {
    if w == 0 { "пн"@ }
    else if w == 1 { "вт"@ }
    else if w == 2 { "ср"@ }
    else if w == 3 { "чт"@ }
    else if w == 4 { "пт"@ }
    else if w == 5 { "сб"@ }
    else { "вс"@ }
}

/// Weekday names in the dative plural ("по понедельникам"), Monday first.
pub open spec fn weekday_dative_text(w: int) -> Seq<char> {
    if w == 0 { "понедельникам"@ }
    else if w == 1 { "вторникам"@ }
    else if w == 2 { "средам"@ }
    else if w == 3 { "четвергам"@ }
    else if w == 4 { "пятницам"@ }
    else if w == 5 { "субботам"@ }
    else { "воскресеньям"@ }
}

pub fn month_short(m: u32) -> (r: &'static str)
    ensures
        r@ == month_short_text(m as int),
{
    if m == 1 { "янв." }
    else if m == 2 { "февр." }
    else if m == 3 { "мар." }
    else if m == 4 { "апр." }
    else if m == 5 { "мая" }
    else if m == 6 { "июня" }
    else if m == 7 { "июля" }
    else if m == 8 { "авг." }
    else if m == 9 { "сент." }
    else if m == 10 { "окт." }
    else if m == 11 { "нояб." }
    else { "дек." }
}

pub fn month_long(m: u32) -> (r: &'static str)
    ensures
        r@ == month_long_text(m as int),
{
    if m == 1 { "января" }
    else if m == 2 { "февраля" }
    else if m == 3 { "марта" }
    else if m == 4 { "апреля" }
    else if m == 5 { "мая" }
    else if m == 6 { "июня" }
    else if m == 7 { "июля" }
    else if m == 8 { "августа" }
    else if m == 9 { "сентября" }
    else if m == 10 { "октября" }
    else if m == 11 { "ноября" }
    else { "декабря" }
}

pub fn weekday_short(w: u32) -> (r: &'static str)
    ensures
        r@ == weekday_short_text(w as int),
{
    if w == 0 { "пн" }
    else if w == 1 { "вт" }
    else if w == 2 { "ср" }
    else if w == 3 { "чт" }
    else if w == 4 { "пт" }
    else if w == 5 { "сб" }
    else { "вс" }
}

pub fn weekday_dative(w: u32) -> (r: &'static str)
    ensures
        r@ == weekday_dative_text(w as int),
{
    if w == 0 { "понедельникам" }
    else if w == 1 { "вторникам" }
    else if w == 2 { "средам" }
    else if w == 3 { "четвергам" }
    else if w == 4 { "пятницам" }
    else if w == 5 { "субботам" }
    else { "воскресеньям" }
}

// ---------------------------------------------------------------------------
// Date labels
// ---------------------------------------------------------------------------

/// `{}` of a signed number.
pub open spec fn signed_decimal(n: int) -> Seq<char> {
    if n >= 0 {
        decimal(n as nat)
    } else {
        seq!['-'] + decimal((-n) as nat)
    }
}

/// Appends a whole number as `{}` prints it.
pub fn push_signed_decimal(out: &mut String, n: i64)
    ensures
        final(out)@ == old(out)@ + signed_decimal(n as int),
{
    if n >= 0 {
        push_decimal(out, n as u64);
    } else {
        let ghost start = out@;
        push_char(out, '-');
        let below: i64 = -(n + 1);
        let m: u64 = below as u64 + 1;
        push_decimal(out, m);
        proof {
            assert(out@ =~= start + signed_decimal(n as int));
        }
    }
}

/// The text without its trailing dots.
pub open spec fn trim_dots(s: Seq<char>) -> Seq<char>
    decreases s.len(),
{
    if s.len() > 0 && s.last() == '.' {
        trim_dots(s.drop_last())
    } else {
        s
    }
}

fn trim_end_dots(s: &String) -> (r: String)
    ensures
        r@ == trim_dots(s@),
{
    let mut v = chars_of(s.as_str());
    while v.len() > 0 && v[v.len() - 1] == '.'
        invariant
            trim_dots(v@) == trim_dots(s@),
        decreases v@.len(),
    {
        let ghost before = v@;
        v.pop();
        proof {
            assert(v@ =~= before.drop_last());
        }
    }
    string_of(&v)
}

/// "18 сент": day and short month, without the abbreviation dot.
pub open spec fn day_month_text(d: CivilDate) -> Seq<char> {
    trim_dots(decimal(d.day as nat) + seq![' '] + month_short_text(d.month as int))
}

pub open spec fn fmt_day_month_text(key: Seq<char>) -> Seq<char> {
    match chrono_parse_ymd(key) {
        Some(d) => day_month_text(d),
        None => key,
    }
}

/// "18 сент" for a day key; other texts are returned as they are.
pub fn fmt_day_month(key: &str) -> (r: String)
    ensures
        r@ == fmt_day_month_text(key@),
{
    match parse_key(key) {
        Some(d) => {
            let mut s = String::new();
            push_decimal(&mut s, d.day as u64);
            push_char(&mut s, ' ');
            push_str(&mut s, month_short(d.month));
            proof {
                assert(s@ =~= decimal(d.day as nat) + seq![' '] + month_short_text(d.month as int));
            }
            trim_end_dots(&s)
        },
        None => key.to_owned(),
    }
}

pub open spec fn cal_day_label_text(d: CivilDate) -> Seq<char> {
    weekday_short_text(weekday_of(d)) + ", "@ + decimal(d.day as nat) + seq![' ']
        + month_short_text(d.month as int)
}

pub open spec fn fmt_cal_day_label_text(key: Seq<char>) -> Seq<char> {
    match chrono_parse_ymd(key) {
        Some(d) => cal_day_label_text(d),
        None => key,
    }
}

/// "чт, 18 сент." for a day key; other texts are returned as they are.
pub fn fmt_cal_day_label(key: &str) -> (r: String)
    ensures
        r@ == fmt_cal_day_label_text(key@),
{
    match parse_key(key) {
        Some(d) => {
            let mut s = String::new();
            push_str(&mut s, weekday_short(weekday_index(d)));
            push_str(&mut s, ", ");
            push_decimal(&mut s, d.day as u64);
            push_char(&mut s, ' ');
            push_str(&mut s, month_short(d.month));
            proof {
                assert(s@ =~= cal_day_label_text(d));
            }
            s
        },
        None => key.to_owned(),
    }
}

pub open spec fn day_month_year_text(d: CivilDate) -> Seq<char> {
    decimal(d.day as nat) + seq![' '] + month_long_text(d.month as int) + seq![' ']
        + signed_decimal(d.year as int)
}

pub open spec fn fmt_day_month_year_text(key: Seq<char>) -> Seq<char> {
    match chrono_parse_ymd(key) {
        Some(d) => day_month_year_text(d),
        None => key,
    }
}

/// "18 сентября 2025" for a day key; other texts are returned as they are.
pub fn fmt_day_month_year(key: &str) -> (r: String)
    ensures
        r@ == fmt_day_month_year_text(key@),
{
    match parse_key(key) {
        Some(d) => {
            let mut s = String::new();
            push_decimal(&mut s, d.day as u64);
            push_char(&mut s, ' ');
            push_str(&mut s, month_long(d.month));
            push_char(&mut s, ' ');
            push_signed_decimal(&mut s, d.year as i64);
            proof {
                assert(s@ =~= day_month_year_text(d));
            }
            s
        },
        None => key.to_owned(),
    }
}

pub open spec fn day_long_text(d: CivilDate) -> Seq<char> {
    decimal(d.day as nat) + seq![' '] + month_long_text(d.month as int)
}

/// "15 сентября — 21 сентября 2025"; across years each end carries its year.
pub open spec fn week_period_text(first: Seq<char>, last: Seq<char>) -> Seq<char> {
    match (chrono_parse_ymd(first), chrono_parse_ymd(last)) {
        (Some(f), Some(l)) => if f.year == l.year {
            day_long_text(f) + " — "@ + day_long_text(l) + seq![' '] + signed_decimal(f.year as int)
        } else {
            day_long_text(f) + " — "@ + day_long_text(l) + seq![' '] + signed_decimal(l.year as int)
        },
        _ => first + " — "@ + last,
    }
}

pub fn fmt_week_period(first: &str, last: &str) -> (r: String)
    ensures
        r@ == week_period_text(first@, last@),
{
    let (f, l) = match (parse_key(first), parse_key(last)) {
        (Some(f), Some(l)) => (f, l),
        _ => {
            let mut s = String::new();
            push_str(&mut s, first);
            push_str(&mut s, " — ");
            push_str(&mut s, last);
            proof {
                assert(s@ =~= week_period_text(first@, last@));
            }
            return s;
        },
    };
    let mut s = String::new();
    push_decimal(&mut s, f.day as u64);
    push_char(&mut s, ' ');
    push_str(&mut s, month_long(f.month));
    push_str(&mut s, " — ");
    push_decimal(&mut s, l.day as u64);
    push_char(&mut s, ' ');
    push_str(&mut s, month_long(l.month));
    push_char(&mut s, ' ');
    if f.year != l.year {
        push_signed_decimal(&mut s, l.year as i64);
    } else {
        push_signed_decimal(&mut s, f.year as i64);
    }
    proof {
        assert(s@ =~= week_period_text(first@, last@));
    }
    s
}

pub open spec fn dot_date_text(d: CivilDate) -> Seq<char> {
    zero_padded(d.day as nat, 2) + seq!['.'] + zero_padded(d.month as nat, 2) + seq!['.']
        + signed_decimal(d.year as int)
}

pub open spec fn fmt_dot_date_text(key: Seq<char>) -> Seq<char> {
    match chrono_parse_ymd(key) {
        Some(d) => dot_date_text(d),
        None => key,
    }
}

/// "dd.mm.yyyy" for a day key; other texts are returned as they are.
pub fn fmt_dot_date(key: &str) -> (r: String)
    ensures
        r@ == fmt_dot_date_text(key@),
{
    match parse_key(key) {
        Some(d) => {
            let mut s = String::new();
            push_zero_padded(&mut s, d.day as u64, 2);
            push_char(&mut s, '.');
            push_zero_padded(&mut s, d.month as u64, 2);
            push_char(&mut s, '.');
            push_signed_decimal(&mut s, d.year as i64);
            proof {
                assert(s@ =~= dot_date_text(d));
            }
            s
        },
        None => key.to_owned(),
    }
}

/// The "HH:MM" of an ISO date-time: its bytes 11..16, or nothing when shorter.
pub open spec fn time_text(iso: Seq<char>) -> Seq<char> {
    if encode_utf8(iso).len() >= 16 {
        decode_utf8(encode_utf8(iso).subrange(11, 16))
    } else {
        seq![]
    }
}

/// The time bytes can be cut out of the text (always so for ASCII texts).
pub open spec fn time_cuttable(iso: Seq<char>) -> bool {
    encode_utf8(iso).len() < 16 || (is_char_boundary(encode_utf8(iso), 11) && is_char_boundary(
        encode_utf8(iso),
        16,
    ))
}

/// "HH:MM" of an ISO date-time.
pub fn fmt_time(iso: &str) -> (r: String)
    requires
        time_cuttable(iso@),
    ensures
        r@ == time_text(iso@),
{
    if iso.as_bytes().len() >= 16 {
        let (_head, rest) = iso.split_at(11);
        proof {
            let b = encode_utf8(iso@);
            assert(encode_utf8(rest@) =~= b.subrange(11, b.len() as int));
            vstd::utf8::encode_utf8_valid_utf8(iso@);
            vstd::utf8::valid_utf8_split(b, 11);
            vstd::utf8::valid_utf8_split(b, 16);
            assert(is_char_boundary(encode_utf8(rest@), 5)) by {
                lemma_boundary_shift(b, 11, 16);
            }
        }
        let (mid, _tail) = rest.split_at(5);
        let out = mid.to_owned();
        proof {
            let b = encode_utf8(iso@);
            assert(encode_utf8(out@) =~= b.subrange(11, 16));
        }
        out
    } else {
        String::new()
    }
}

/// A boundary `j` of a text stays a boundary of its tail from boundary `i`.
proof fn lemma_boundary_shift(b: Seq<u8>, i: int, j: int)
    requires
        valid_utf8(b),
        0 <= i <= j <= b.len(),
        is_char_boundary(b, i),
        is_char_boundary(b, j),
    ensures
        is_char_boundary(b.subrange(i, b.len() as int), j - i),
    decreases b.len(),
{
    let tail = b.subrange(i, b.len() as int);
    vstd::utf8::valid_utf8_split(b, i);
    if j == i {
    } else if j == b.len() {
        vstd::utf8::is_char_boundary_start_end_of_seq(tail);
    } else {
        vstd::utf8::is_char_boundary_iff_not_is_continuation_byte(b, j);
        vstd::utf8::is_char_boundary_iff_not_is_continuation_byte(tail, j - i);
        assert(tail[j - i] == b[j]);
    }
}

// ---------------------------------------------------------------------------
// Recurrence description
// ---------------------------------------------------------------------------

pub open spec fn every_singular_text(i: int) -> Seq<char> {
    if i == 0 { "Каждый день"@ }
    else if i == 1 { "Каждую неделю"@ }
    else if i == 2 { "Каждый месяц"@ }
    else { "Каждый год"@ }
}

pub open spec fn every_plural_text(i: int) -> Seq<char> {
    if i == 0 { "дня"@ }
    else if i == 1 { "недели"@ }
    else if i == 2 { "месяца"@ }
    else { "года"@ }
}

fn every_singular(i: u8) -> (r: &'static str)
    ensures
        r@ == every_singular_text(i as int),
{
    if i == 0 { "Каждый день" }
    else if i == 1 { "Каждую неделю" }
    else if i == 2 { "Каждый месяц" }
    else { "Каждый год" }
}

fn every_plural(i: u8) -> (r: &'static str)
    ensures
        r@ == every_plural_text(i as int),
{
    if i == 0 { "дня" }
    else if i == 1 { "недели" }
    else if i == 2 { "месяца" }
    else { "года" }
}

/// Dative weekday name for an ISO weekday number (out-of-range numbers are
/// clamped to Monday and Sunday).
pub open spec fn dative_for(d: u8) -> Seq<char> {
    weekday_dative_text(if d == 0 { 0 } else if d - 1 > 6 { 6 } else { d - 1 })
}

/// The weekday names joined with " и ".
pub open spec fn joined_days(days: Seq<u8>) -> Seq<char>
    decreases days.len(),
{
    if days.len() == 0 {
        seq![]
    } else if days.len() == 1 {
        dative_for(days[0])
    } else {
        joined_days(days.drop_last()) + " и "@ + dative_for(days.last())
    }
}

pub open spec fn describe_text(rule: Option<RecurrenceRule>) -> Seq<char> {
    match rule {
        None => "Повторение"@,
        Some(r) => {
            let i = if r.frequency > 3 { 3 } else { r.frequency as int };
            let every = if r.interval == 1 {
                every_singular_text(i)
            } else {
                "Каждые "@ + decimal(r.interval as nat) + seq![' '] + every_plural_text(i)
            };
            let weekdays = if r.frequency == 1 && r.days_of_week@.len() > 0 {
                " по "@ + joined_days(r.days_of_week@)
            } else {
                seq![]
            };
            let mode = if r.recurrence_type == 1 {
                " после выполнения"@
            } else {
                " по расписанию"@
            };
            every + weekdays + mode
        },
    }
}

/// "Каждую неделю по понедельникам и средам по расписанию".
pub fn describe_recurrence(rule: &Option<RecurrenceRule>) -> (r: String)
    ensures
        r@ == describe_text(*rule),
{
    let rule = match rule {
        None => {
            let mut s = String::new();
            push_str(&mut s, "Повторение");
            return s;
        },
        Some(r) => r,
    };
    let i: u8 = if rule.frequency > 3 { 3 } else { rule.frequency };
    let mut s = String::new();
    if rule.interval == 1 {
        push_str(&mut s, every_singular(i));
    } else {
        push_str(&mut s, "Каждые ");
        push_decimal(&mut s, rule.interval as u64);
        push_char(&mut s, ' ');
        push_str(&mut s, every_plural(i));
    }
    let ghost every = s@;
    if rule.frequency == 1 && rule.days_of_week.len() > 0 {
        push_str(&mut s, " по ");
        let ghost base = s@;
        let mut k: usize = 0;
        while k < rule.days_of_week.len()
            invariant
                0 <= k <= rule.days_of_week@.len(),
                s@ == base + joined_days(rule.days_of_week@.take(k as int)),
            decreases rule.days_of_week@.len() - k,
        {
            if k > 0 {
                push_str(&mut s, " и ");
            }
            let d = rule.days_of_week[k];
            let w: u32 = if d == 0 { 0 } else if d - 1 > 6 { 6 } else { (d - 1) as u32 };
            push_str(&mut s, weekday_dative(w));
            proof {
                let taken = rule.days_of_week@.take(k + 1);
                assert(taken.drop_last() =~= rule.days_of_week@.take(k as int));
                assert(taken.last() == d);
                if k == 0 {
                    assert(rule.days_of_week@.take(0) =~= Seq::<u8>::empty());
                }
            }
            k = k + 1;
        }
        proof {
            assert(rule.days_of_week@.take(rule.days_of_week@.len() as int) =~= rule.days_of_week@);
        }
    }
    if rule.recurrence_type == 1 {
        push_str(&mut s, " после выполнения");
    } else {
        push_str(&mut s, " по расписанию");
    }
    proof {
        assert(s@ =~= describe_text(Some(*rule)));
    }
    s
}


/// The head of a rule's description names its period: "Каждый день",
/// "Каждую неделю", "Каждый месяц", "Каждый год" for an interval of 1 (a
/// frequency above yearly counts as yearly), else "Каждые N" and the period
/// word ("дня", "недели", "месяца", "года"); the description ends with
/// " после выполнения" for a rule counted from completion and with
/// " по расписанию" otherwise.
pub proof fn law_rule_description(r: RecurrenceRule)
    ensures
        ({
            let f: int = if r.frequency < 3 { r.frequency as int } else { 3 };
            let head = if r.interval == 1 {
                seq!["Каждый день"@, "Каждую неделю"@, "Каждый месяц"@, "Каждый год"@][f]
            } else {
                "Каждые "@ + decimal(r.interval as nat) + seq![' '] + seq!["дня"@, "недели"@, "месяца"@, "года"@][f]
            };
            let tail = if r.recurrence_type == 1 { " после выполнения"@ } else { " по расписанию"@ };
            let text = describe_text(Some(r));
            &&& head.len() + tail.len() <= text.len()
            &&& text.subrange(0, head.len() as int) == head
            &&& text.subrange(text.len() - tail.len(), text.len() as int) == tail
        }),
{
    let f: int = if r.frequency < 3 { r.frequency as int } else { 3 };
    let head = if r.interval == 1 {
        seq!["Каждый день"@, "Каждую неделю"@, "Каждый месяц"@, "Каждый год"@][f]
    } else {
        "Каждые "@ + decimal(r.interval as nat) + seq![' '] + seq!["дня"@, "недели"@, "месяца"@, "года"@][f]
    };
    let tail = if r.recurrence_type == 1 { " после выполнения"@ } else { " по расписанию"@ };
    let weekdays = if r.frequency == 1 && r.days_of_week@.len() > 0 {
        " по "@ + joined_days(r.days_of_week@)
    } else {
        seq![]
    };
    let text = describe_text(Some(r));
    assert(text == head + weekdays + tail);
    assert(text.subrange(0, head.len() as int) =~= head);
    assert(text.subrange(text.len() - tail.len(), text.len() as int) =~= tail);
}


/// The ru-RU genitive month names, January first.
pub open spec fn genitive_months() -> Seq<Seq<char>> {
    seq!["января"@, "февраля"@, "марта"@, "апреля"@, "мая"@, "июня"@, "июля"@, "августа"@, "сентября"@, "октября"@, "ноября"@, "декабря"@]
}

/// Month `m` (1 to 12) is named by its own genitive name, short ("18
/// сент.") and long ("18 сентября"), and no two months share a long name.
pub proof fn law_month_names(m: int)
    requires
        1 <= m <= 12,
    ensures
        month_long_text(m) == genitive_months()[m - 1],
        month_short_text(m) == seq!["янв."@, "февр."@, "мар."@, "апр."@, "мая"@, "июня"@, "июля"@, "авг."@, "сент."@, "окт."@, "нояб."@, "дек."@][m - 1],
        forall|a: int, b: int| 1 <= a < b <= 12 ==> month_long_text(a) != month_long_text(b),
{
    reveal_strlit("января");
    reveal_strlit("февраля");
    reveal_strlit("марта");
    reveal_strlit("апреля");
    reveal_strlit("мая");
    reveal_strlit("июня");
    reveal_strlit("июля");
    reveal_strlit("августа");
    reveal_strlit("сентября");
    reveal_strlit("октября");
    reveal_strlit("ноября");
    reveal_strlit("декабря");
    let names = genitive_months();
    let prints = seq![(6int, 'я', 'в'), (7int, 'ф', 'в'), (5int, 'м', 'р'), (6int, 'а', 'р'), (3int, 'м', 'я'), (4int, 'и', 'н'), (4int, 'и', 'л'), (7int, 'а', 'г'), (8int, 'с', 'н'), (7int, 'о', 'т'), (6int, 'н', 'я'), (7int, 'д', 'к')];
    assert forall|k: int| 0 <= k < 12 implies (names[k].len() as int, names[k][0], names[k][2]) == #[trigger] prints[k] by {
    }
    assert forall|a: int, b: int| 1 <= a < b <= 12 implies month_long_text(a) != month_long_text(b) by {
        assert(month_long_text(a) == names[a - 1]);
        assert(month_long_text(b) == names[b - 1]);
        assert(prints[a - 1] != prints[b - 1]);
        if names[a - 1] == names[b - 1] {
            assert(prints[a - 1] == prints[b - 1]);
        }
    }
}

/// Weekday `w` (Monday = 0 .. Sunday = 6) is named by its own short name
/// ("пн" .. "вс") and, in a rule's description, its own dative plural
/// ("по понедельникам" .. "по воскресеньям").
pub proof fn law_weekday_names(w: int)
    requires
        0 <= w < 7,
    ensures
        weekday_short_text(w) == seq!["пн"@, "вт"@, "ср"@, "чт"@, "пт"@, "сб"@, "вс"@][w],
        weekday_dative_text(w) == seq!["понедельникам"@, "вторникам"@, "средам"@, "четвергам"@, "пятницам"@, "субботам"@, "воскресеньям"@][w],
{
}

/// A date label carries the day's own month: "8 марта 2025" for
/// 2025-03-08, each end of a week "3 марта — 9 марта 2025".
pub proof fn law_labels_name_the_month(key: Seq<char>, d: CivilDate)
    requires
        chrono_parse_ymd(key) == Some(d),
        1 <= d.month <= 12,
    ensures
        fmt_day_month_year_text(key) == decimal(d.day as nat) + seq![' '] + genitive_months()[d.month - 1]
            + seq![' '] + signed_decimal(d.year as int),
        day_long_text(d) == decimal(d.day as nat) + seq![' '] + genitive_months()[d.month - 1],
        fmt_day_month_text(key) == trim_dots(decimal(d.day as nat) + seq![' '] + seq!["янв."@, "февр."@, "мар."@,
            "апр."@, "мая"@, "июня"@, "июля"@, "авг."@, "сент."@, "окт."@, "нояб."@, "дек."@][d.month - 1]),
        fmt_cal_day_label_text(key) == seq!["пн"@, "вт"@, "ср"@, "чт"@, "пт"@, "сб"@, "вс"@][(day_number(d) + 3) % 7]
            + ", "@ + decimal(d.day as nat) + seq![' '] + seq!["янв."@, "февр."@, "мар."@, "апр."@, "мая"@, "июня"@,
            "июля"@, "авг."@, "сент."@, "окт."@, "нояб."@, "дек."@][d.month - 1],
        fmt_dot_date_text(key) == zero_padded(d.day as nat, 2) + seq!['.'] + zero_padded(d.month as nat, 2)
            + seq!['.'] + signed_decimal(d.year as int),
{
    law_month_names(d.month as int);
    law_weekday_names((day_number(d) + 3) % 7);
}

/// A week's caption names each end's own day and month and the year the
/// week ends in: "3 марта — 9 марта 2025".
pub proof fn law_week_caption(first: Seq<char>, last: Seq<char>, f: CivilDate, l: CivilDate)
    requires
        chrono_parse_ymd(first) == Some(f),
        chrono_parse_ymd(last) == Some(l),
        1 <= f.month <= 12,
        1 <= l.month <= 12,
    ensures
        week_period_text(first, last) == decimal(f.day as nat) + seq![' '] + genitive_months()[f.month - 1] + " — "@
            + decimal(l.day as nat) + seq![' '] + genitive_months()[l.month - 1] + seq![' ']
            + signed_decimal(l.year as int),
{
    law_month_names(f.month as int);
    law_month_names(l.month as int);
}


/// ISO weekdays (1 = Monday .. 7 = Sunday) in the dative plural, joined
/// with " и ".
pub open spec fn weekdays_dative(days: Seq<u8>) -> Seq<char>
    decreases days.len(),
{
    let names = seq!["понедельникам"@, "вторникам"@, "средам"@, "четвергам"@, "пятницам"@, "субботам"@,
        "воскресеньям"@];
    if days.len() == 0 {
        seq![]
    } else if days.len() == 1 {
        names[days[0] - 1]
    } else {
        weekdays_dative(days.drop_last()) + " и "@ + names[days.last() - 1]
    }
}

proof fn lemma_joined_days(days: Seq<u8>)
    requires
        forall|k: int| 0 <= k < days.len() ==> 1 <= #[trigger] days[k] <= 7,
    ensures
        joined_days(days) == weekdays_dative(days),
    decreases days.len(),
{
    if days.len() > 0 {
        law_weekday_names(days.last() - 1);
        law_weekday_names(days[0] - 1);
        if days.len() > 1 {
            lemma_joined_days(days.drop_last());
        }
    }
}

/// A weekly rule on chosen weekdays names them, in the order chosen,
/// between its period and its mode: "Каждую неделю по понедельникам и
/// средам по расписанию".
pub proof fn law_weekly_description(r: RecurrenceRule)
    requires
        r.frequency == 1,
        r.days_of_week@.len() > 0,
        forall|k: int| 0 <= k < r.days_of_week@.len() ==> 1 <= #[trigger] r.days_of_week@[k] <= 7,
    ensures
        describe_text(Some(r)) == (if r.interval == 1 { "Каждую неделю"@ } else {
            "Каждые "@ + decimal(r.interval as nat) + " недели"@
        }) + " по "@ + weekdays_dative(r.days_of_week@)
            + if r.recurrence_type == 1 { " после выполнения"@ } else { " по расписанию"@ },
{
    lemma_joined_days(r.days_of_week@);
    reveal_strlit(" недели");
    reveal_strlit("недели");
    assert(seq![' '] + "недели"@ =~= " недели"@);
    if r.interval != 1 {
        assert("Каждые "@ + decimal(r.interval as nat) + seq![' '] + "недели"@
            =~= "Каждые "@ + decimal(r.interval as nat) + " недели"@);
    }
}

} // verus!
