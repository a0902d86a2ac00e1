//! Calendar days: the proleptic Gregorian calendar that chrono's `NaiveDate`
//! covers, "YYYY-MM-DD" day keys, and the chrono calls for parsing, the
//! current day and day/month arithmetic.
use vstd::prelude::*;
use chrono::Datelike;
use crate::text::push_char;

verus! {

/// Earliest year chrono's `NaiveDate` represents.
pub const MIN_YEAR: i32 = -262143;
/// Latest year chrono's `NaiveDate` represents.
pub const MAX_YEAR: i32 = 262142;

/// A calendar day, by its year, month (1..=12) and day of month.
#[derive(Clone, Copy, PartialEq, Eq, Debug, Structural)]
pub struct CivilDate {
    pub year: i32,
    pub month: u32,
    pub day: u32,
}

pub open spec fn is_leap_year(y: int) -> bool {
    y % 4 == 0 && (y % 100 != 0 || y % 400 == 0)
}

pub open spec fn days_in_month(y: int, m: int) -> int {
    if m == 2 {
        if is_leap_year(y) { 29 } else { 28 }
    } else if m == 4 || m == 6 || m == 9 || m == 11 {
        30
    } else {
        31
    }
}

/// `a` comes before `b` in the calendar.
pub open spec fn date_before(a: CivilDate, b: CivilDate) -> bool {
    a.year < b.year || (a.year == b.year && (a.month < b.month || (a.month == b.month && a.day
        < b.day)))
}

/// The place of a day among all days chrono covers (gaps at month ends do
/// not matter: it only has to grow with the calendar).
pub open spec fn day_ordinal(d: CivilDate) -> int {
    (d.year - MIN_YEAR) * 372 + (d.month - 1) * 31 + (d.day - 1)
}

pub proof fn lemma_day_ordinal(a: CivilDate, b: CivilDate)
    requires
        valid_date(a),
        valid_date(b),
    ensures
        0 <= day_ordinal(a) < 200_000_000,
        date_before(a, b) ==> day_ordinal(a) < day_ordinal(b),
{
}

/// Calendar order of two days.
pub fn date_less(a: CivilDate, b: CivilDate) -> (r: bool)
    ensures
        r == date_before(a, b),
{
    a.year < b.year || (a.year == b.year && (a.month < b.month || (a.month == b.month && a.day
        < b.day)))
}

/// A day that exists in the calendar chrono covers.
pub open spec fn valid_date(d: CivilDate) -> bool {
    &&& MIN_YEAR <= d.year <= MAX_YEAR
    &&& 1 <= d.month <= 12
    &&& 1 <= d.day <= days_in_month(d.year as int, d.month as int)
}

// ---------------------------------------------------------------------------
// Decimal text
// ---------------------------------------------------------------------------

pub open spec fn digit_char(d: int) -> char {
    (48 + d) as char
}

/// Decimal digits of `n`, as `{}` prints it.
pub open spec fn decimal(n: nat) -> Seq<char>
    decreases n,
{
    if n < 10 {
        seq![digit_char(n as int)]
    } else {
        decimal(n / 10).push(digit_char((n % 10) as int))
    }
}

/// `{:0w}` of a non-negative number: digits left-padded with zeros to `width`.
pub open spec fn zero_padded(n: nat, width: nat) -> Seq<char> {
    let ds = decimal(n);
    if ds.len() >= width {
        ds
    } else {
        Seq::new((width - ds.len()) as nat, |i: int| '0') + ds
    }
}

/// `{:0w}` of a signed number: the sign counts towards the width.
pub open spec fn signed_zero_padded(n: int, width: nat) -> Seq<char> {
    if n >= 0 {
        zero_padded(n as nat, width)
    } else {
        seq!['-'] + zero_padded((-n) as nat, if width >= 1 { (width - 1) as nat } else { 0 })
    }
}

pub open spec fn key_text(d: CivilDate) -> Seq<char> {
    signed_zero_padded(d.year as int, 4) + seq!['-'] + zero_padded(d.month as nat, 2) + seq!['-']
        + zero_padded(d.day as nat, 2)
}

fn digit_of(d: u64) -> (c: char)
    requires
        d < 10,
    ensures
        c == digit_char(d as int),
{
    let b: u8 = 48u8 + d as u8;
    b as char
}

pub proof fn lemma_decimal_len(n: nat)
    ensures
        1 <= decimal(n).len() <= n + 1,
    decreases n,
{
    if n >= 10 {
        lemma_decimal_len(n / 10);
    }
}

/// Number of decimal digits of `n`.
fn digit_count(n: u64) -> (c: u64)
    ensures
        c as nat == decimal(n as nat).len(),
    decreases n,
{
    if n < 10 {
        1
    } else {
        proof {
            lemma_decimal_len((n / 10) as nat);
        }
        1 + digit_count(n / 10)
    }
}

/// Appends the decimal digits of `n`.
pub fn push_decimal(out: &mut String, n: u64)
    ensures
        final(out)@ == old(out)@ + decimal(n as nat),
    decreases n,
{
    if n < 10 {
        push_char(out, digit_of(n));
        proof {
            assert(old(out)@.push(digit_char(n as int)) =~= old(out)@ + decimal(n as nat));
        }
    } else {
        push_decimal(out, n / 10);
        push_char(out, digit_of(n % 10));
        proof {
            assert(decimal(n as nat) == decimal((n / 10) as nat).push(digit_char((n % 10) as int)));
            assert(final(out)@ =~= old(out)@ + decimal(n as nat));
        }
    }
}

/// Appends `n` zero-padded to `width` digits.
pub fn push_zero_padded(out: &mut String, n: u64, width: u64)
    requires
        width <= 20,
    ensures
        final(out)@ == old(out)@ + zero_padded(n as nat, width as nat),
{
    let len = digit_count(n);
    let ghost start = out@;
    let mut k: u64 = len;
    while k < width
        invariant
            len <= k,
            k <= width || k == len,
            out@ == start + Seq::new((k - len) as nat, |i: int| '0'),
        decreases width - k,
    {
        push_char(out, '0');
        proof {
            assert(out@ =~= start + Seq::new((k + 1 - len) as nat, |i: int| '0'));
        }
        k = k + 1;
    }
    push_decimal(out, n);
    proof {
        if decimal(n as nat).len() >= width {
            assert(out@ =~= start + zero_padded(n as nat, width as nat));
        } else {
            assert(out@ =~= start + zero_padded(n as nat, width as nat));
        }
    }
}

/// Appends `n` as `{:0w}` prints a signed number.
pub fn push_signed_zero_padded(out: &mut String, n: i64, width: u64)
    requires
        1 <= width <= 20,
        n > i64::MIN,
    ensures
        final(out)@ == old(out)@ + signed_zero_padded(n as int, width as nat),
{
    if n >= 0 {
        push_zero_padded(out, n as u64, width);
    } else {
        let ghost start = out@;
        push_char(out, '-');
        push_zero_padded(out, (-n) as u64, width - 1);
        proof {
            assert(out@ =~= start + signed_zero_padded(n as int, width as nat));
        }
    }
}

/// "YYYY-MM-DD" of a day (`{:04}-{:02}-{:02}`).
pub fn key_of(d: CivilDate) -> (r: String)
    ensures
        r@ == key_text(d),
{
    let mut out = String::new();
    push_signed_zero_padded(&mut out, d.year as i64, 4);
    push_char(&mut out, '-');
    push_zero_padded(&mut out, d.month as u64, 2);
    push_char(&mut out, '-');
    push_zero_padded(&mut out, d.day as u64, 2);
    proof {
        assert(out@ =~= key_text(d));
    }
    out
}

// ---------------------------------------------------------------------------
// chrono
// ---------------------------------------------------------------------------

/// What `NaiveDate::parse_from_str(key, "%Y-%m-%d")` gives for a text.
pub uninterp spec fn chrono_parse_ymd(key: Seq<char>) -> Option<CivilDate>;

/// What `NaiveDate::checked_add_signed` gives for a day and a whole number
/// of days (`None` also where `TimeDelta::try_days` refuses the count).
pub uninterp spec fn chrono_add_days(d: CivilDate, days: int) -> Option<CivilDate>;


/// The number of a day in the proleptic Gregorian calendar, counted from
/// 1970-01-01 (day 0): consecutive days have consecutive numbers.
pub open spec fn day_number(d: CivilDate) -> int {
    let y: int = if d.month <= 2 { d.year as int - 1 } else { d.year as int };
    let era: int = y / 400;
    let yoe: int = y - era * 400;
    let mp: int = (d.month as int + 9) % 12;
    let doy: int = (153 * mp + 2) / 5 + d.day as int - 1;
    let doe: int = yoe * 365 + yoe / 4 - yoe / 100 + doy;
    era * 146097 + doe - 719468
}

/// Calls `NaiveDate::parse_from_str(key, "%Y-%m-%d")`. Claims only that the
/// result is the named parse of the text and, when there is one, a real day.
#[verifier::external_body]
pub fn parse_key(key: &str) -> (r: Option<CivilDate>)
    ensures
        r == chrono_parse_ymd(key@),
        r matches Some(d) ==> valid_date(d),
{
    match chrono::NaiveDate::parse_from_str(key, "%Y-%m-%d") {
        Ok(n) => Some(CivilDate { year: n.year(), month: n.month(), day: n.day() }),
        Err(_) => None,
    }
}

/// Calls `Local::now().date_naive()`: today in the machine's time zone.
/// Claims only that it is a real day of chrono's range.
#[verifier::external_body]
pub(crate) fn local_today() -> (d: CivilDate)
    ensures
        valid_date(d),
{
    let n = chrono::Local::now().date_naive();
    CivilDate { year: n.year(), month: n.month(), day: n.day() }
}

/// An RFC 3339 stamp as chrono writes it: ASCII only, and at least the
/// 25 characters of "YYYY-MM-DDTHH:MM:SS+hh:mm".
pub open spec fn rfc3339_shaped(s: Seq<char>) -> bool {
    vstd::utf8::is_ascii_chars(s) && s.len() >= 25
}

/// Calls `Utc::now().to_rfc3339()`: the current instant as an RFC 3339
/// text. Claims only its shape (chrono's `write_rfc3339` writes ASCII
/// digits and separators: a date of at least 10 characters, the time and
/// the "+00:00" offset); which instant it is stays open.
#[verifier::external_body]
pub(crate) fn utc_now_rfc3339() -> (r: String)
    ensures
        rfc3339_shaped(r@),
{
    chrono::Utc::now().to_rfc3339()
}

/// Calls `Local::now().to_rfc3339()`: the current local instant as an RFC
/// 3339 text. Claims only its shape, as for `utc_now_rfc3339`.
#[verifier::external_body]
pub(crate) fn local_now_rfc3339() -> (r: String)
    ensures
        rfc3339_shaped(r@),
{
    chrono::Local::now().to_rfc3339()
}

/// The current local instant, RFC 3339, as tasks are stamped with it.
pub fn local_stamp() -> (r: String)
    ensures
        rfc3339_shaped(r@),
        crate::model::date_cuttable(r@),
{
    let r = local_now_rfc3339();
    proof {
        lemma_rfc3339_cuttable(r@);
    }
    r
}

/// A stamp of that shape can be cut to its first ten characters.
pub proof fn lemma_rfc3339_cuttable(s: Seq<char>)
    requires
        rfc3339_shaped(s),
    ensures
        crate::model::date_cuttable(s),
{
    vstd::utf8::is_ascii_chars_encode_utf8(s);
    vstd::utf8::encode_utf8_valid_utf8(s);
    let b = vstd::utf8::encode_utf8(s);
    assert(s[10] as u8 == b[10]);
    let c = s[10];
    assert((c as nat) < 128) by {
        vstd::utf8::is_ascii_chars_nat_bound(s);
    }
    vstd::utf8::is_char_boundary_iff_not_is_continuation_byte(b, 10);
}

/// The weekday of a day, 0 for Monday .. 6 for Sunday: day 0
/// (1970-01-01) was a Thursday.
pub open spec fn weekday_of(d: CivilDate) -> int {
    (day_number(d) + 3) % 7
}

/// Calls `TimeDelta::try_days` and `NaiveDate::checked_add_signed`. Claims
/// the result is the named sum, a real day when there is one, the day whose
/// number is `days` past the given day's (chrono adds whole days in the
/// proleptic Gregorian calendar) and `None` exactly where no day of
/// chrono's range has that number, earlier for a
/// negative count and later for a positive one, and that a shift of at most
/// 365 days from a day not in chrono's first or last year stays in range
/// (chrono's range is the whole years `MIN_YEAR..=MAX_YEAR`, and both of
/// these edge years are common years of 365 days).
#[verifier::external_body]
pub(crate) fn add_days(d: CivilDate, days: i64) -> (r: Option<CivilDate>)
    requires
        valid_date(d),
    ensures
        r == chrono_add_days(d, days as int),
        r matches Some(e) ==> valid_date(e),
        r matches Some(e) ==> day_number(e) == day_number(d) + days,
        r is Some <==> (exists|e: CivilDate| valid_date(e) && day_number(e) == day_number(d) + days),
        r matches Some(e) ==> (days < 0 ==> date_before(e, d)) && (days > 0 ==> date_before(d, e)),
        MIN_YEAR < d.year < MAX_YEAR && -365 <= days <= 365 ==> r is Some,
{
    let n = chrono::NaiveDate::from_ymd_opt(d.year, d.month, d.day).unwrap();
    match chrono::TimeDelta::try_days(days) {
        Some(delta) => match n.checked_add_signed(delta) {
            Some(m) => Some(CivilDate { year: m.year(), month: m.month(), day: m.day() }),
            None => None,
        },
        None => None,
    }
}

/// Calls `Datelike::weekday` and `Weekday::num_days_from_monday`: 0 for
/// Monday; day 0 (1970-01-01) was a Thursday, so the index is the day's
/// number plus 3, modulo 7.
#[verifier::external_body]
pub(crate) fn weekday_index(d: CivilDate) -> (r: u32)
    requires
        valid_date(d),
    ensures
        r as int == weekday_of(d),
{
    let n = chrono::NaiveDate::from_ymd_opt(d.year, d.month, d.day).unwrap();
    n.weekday().num_days_from_monday()
}

/// Month count of a day: months since January of year 0.
pub open spec fn month_index(d: CivilDate) -> int {
    d.year as int * 12 + d.month as int - 1
}

/// A day moved forward by whole months as chrono documents it: the month
/// advances, the day of month is kept or, where that month is shorter,
/// clamped to its last day; nothing once the year leaves chrono's range.
pub open spec fn month_shift(d: CivilDate, months: int) -> Option<CivilDate> {
    let idx = month_index(d) + months;
    let y = idx / 12;
    let m = idx % 12 + 1;
    if MIN_YEAR <= y <= MAX_YEAR {
        Some(CivilDate {
            year: y as i32,
            month: m as u32,
            day: if d.day <= days_in_month(y, m) { d.day } else { days_in_month(y, m) as u32 },
        })
    } else {
        None
    }
}

/// Calls `NaiveDate::checked_add_months`; claims the documented behaviour
/// stated by `month_shift`.
#[verifier::external_body]
pub(crate) fn add_months(d: CivilDate, months: u32) -> (r: Option<CivilDate>)
    requires
        valid_date(d),
    ensures
        r == month_shift(d, months as int),
{
    let n = chrono::NaiveDate::from_ymd_opt(d.year, d.month, d.day).unwrap();
    match n.checked_add_months(chrono::Months::new(months)) {
        Some(m) => Some(CivilDate { year: m.year(), month: m.month(), day: m.day() }),
        None => None,
    }
}

pub proof fn lemma_month_shift_valid(d: CivilDate, months: int)
    requires
        valid_date(d),
    ensures
        month_shift(d, months) matches Some(e) ==> valid_date(e),
{
}

// ---------------------------------------------------------------------------
// Keys relative to today
// ---------------------------------------------------------------------------

/// Today's day key.
pub fn today_key() -> (r: String)
    ensures
        exists|d: CivilDate| valid_date(d) && r@ == key_text(d),
{
    let d = local_today();
    key_of(d)
}

pub open spec fn shifted_key(today: CivilDate, offset: int) -> Option<Seq<char>> {
    match chrono_add_days(today, offset) {
        Some(d) => Some(key_text(d)),
        None => None,
    }
}

pub open spec fn opt_text(v: Option<String>) -> Option<Seq<char>> {
    match v {
        Some(s) => Some(s@),
        None => None,
    }
}

/// The key of the day `offset` days from `today`; `None` when that day is
/// outside chrono's range.
pub fn day_key_from(today: CivilDate, offset: i64) -> (r: Option<String>)
    requires
        valid_date(today),
    ensures
        opt_text(r) == shifted_key(today, offset as int),
        MIN_YEAR < today.year < MAX_YEAR && -365 <= offset <= 365 ==> r is Some,
{
    match add_days(today, offset) {
        Some(d) => Some(key_of(d)),
        None => None,
    }
}

/// The key of the day `offset` days from today (`None` past chrono's range,
/// where a plain date addition panics).
pub fn day_key(offset: i64) -> (r: Option<String>)
    ensures
        exists|t: CivilDate| valid_date(t) && opt_text(r) == shifted_key(t, offset as int),
{
    let t = local_today();
    day_key_from(t, offset)
}

/// "YYYY-MM-DDTHH:MM:00".
pub open spec fn iso_text(d: CivilDate, hour: nat, minute: nat) -> Seq<char> {
    key_text(d) + seq!['T'] + zero_padded(hour, 2) + seq![':'] + zero_padded(minute, 2) + seq![':', '0', '0']
}

pub open spec fn shifted_iso(today: CivilDate, offset: int, hour: nat, minute: nat) -> Option<Seq<char>> {
    match chrono_add_days(today, offset) {
        Some(d) => Some(iso_text(d, hour, minute)),
        None => None,
    }
}

/// A local date-time `offset` days from `today` at `hour:minute`.
pub fn iso_at(today: CivilDate, offset: i64, hour: u32, minute: u32) -> (r: Option<String>)
    requires
        valid_date(today),
    ensures
        opt_text(r) == shifted_iso(today, offset as int, hour as nat, minute as nat),
        MIN_YEAR < today.year < MAX_YEAR && -365 <= offset <= 365 ==> r is Some,
{
    match add_days(today, offset) {
        Some(d) => {
            let mut s = key_of(d);
            push_char(&mut s, 'T');
            push_zero_padded(&mut s, hour as u64, 2);
            push_char(&mut s, ':');
            push_zero_padded(&mut s, minute as u64, 2);
            push_char(&mut s, ':');
            push_char(&mut s, '0');
            push_char(&mut s, '0');
            proof {
                assert(s@ =~= iso_text(d, hour as nat, minute as nat));
            }
            Some(s)
        },
        None => None,
    }
}

} // verus!
