use agenda::dates::{day_key_from, iso_at, key_of, parse_key, CivilDate};
use agenda::format::{
    describe_recurrence, fmt_cal_day_label, fmt_day_month, fmt_day_month_year, fmt_dot_date,
    fmt_time, fmt_week_period,
};
use agenda::model::RecurrenceRule;
use agenda::views::date_group_label_on;

fn day(year: i32, month: u32, day: u32) -> CivilDate {
    CivilDate { year, month, day }
}

#[test]
fn key_of_pads_month_and_day() {
    assert_eq!(key_of(day(2026, 9, 5)), "2026-09-05");
    assert_eq!(key_of(day(2026, 12, 31)), "2026-12-31");
    assert_eq!(key_of(day(987, 1, 1)), "0987-01-01");
}

#[test]
fn parse_key_reads_real_days_only() {
    assert_eq!(parse_key("2026-09-20"), Some(day(2026, 9, 20)));
    assert_eq!(parse_key("2024-02-29"), Some(day(2024, 2, 29)));
    assert_eq!(parse_key("2026-02-30"), None);
    assert_eq!(parse_key("завтра"), None);
    assert_eq!(parse_key(""), None);
}

#[test]
fn key_round_trip() {
    for d in [day(2026, 9, 20), day(2000, 2, 29), day(1999, 12, 31)] {
        assert_eq!(parse_key(&key_of(d)), Some(d));
    }
}

#[test]
fn day_keys_around_today() {
    let today = day(2026, 9, 20);
    assert_eq!(day_key_from(today, 0).as_deref(), Some("2026-09-20"));
    assert_eq!(day_key_from(today, 1).as_deref(), Some("2026-09-21"));
    assert_eq!(day_key_from(today, -20).as_deref(), Some("2026-08-31"));
    assert_eq!(day_key_from(today, 102).as_deref(), Some("2026-12-31"));
    assert_eq!(iso_at(today, 3, 9, 0).as_deref(), Some("2026-09-23T09:00:00"));
    assert_eq!(iso_at(today, -1, 14, 5).as_deref(), Some("2026-09-19T14:05:00"));
    assert_eq!(day_key_from(today, i64::MAX), None);
}

#[test]
fn day_month_strips_trailing_dot() {
    assert_eq!(fmt_day_month("2025-09-18"), "18 сент");
    assert_eq!(fmt_day_month("2025-05-01"), "1 мая");
    assert_eq!(fmt_day_month("2025-06-30"), "30 июня");
    assert_eq!(fmt_day_month("не дата"), "не дата");
}

#[test]
fn calendar_day_label() {
    assert_eq!(fmt_cal_day_label("2025-09-18"), "чт, 18 сент.");
    assert_eq!(fmt_cal_day_label("2026-09-20"), "вс, 20 сент.");
    assert_eq!(fmt_cal_day_label("x"), "x");
}

#[test]
fn day_month_year_label() {
    assert_eq!(fmt_day_month_year("2025-09-18"), "18 сентября 2025");
    assert_eq!(fmt_day_month_year("2026-01-02"), "2 января 2026");
}

#[test]
fn week_period_labels() {
    assert_eq!(fmt_week_period("2025-09-15", "2025-09-21"), "15 сентября — 21 сентября 2025");
    assert_eq!(fmt_week_period("2025-12-29", "2026-01-04"), "29 декабря — 4 января 2026");
    assert_eq!(fmt_week_period("a", "2026-01-04"), "a — 2026-01-04");
}

#[test]
fn dot_date_label() {
    assert_eq!(fmt_dot_date("2025-09-08"), "08.09.2025");
    assert_eq!(fmt_dot_date("oops"), "oops");
}

#[test]
fn time_of_iso() {
    assert_eq!(fmt_time("2025-09-18T09:30:00"), "09:30");
    assert_eq!(fmt_time("2025-09-18T23:59"), "23:59");
    assert_eq!(fmt_time("2025-09-18"), "");
}

#[test]
fn recurrence_descriptions() {
    assert_eq!(describe_recurrence(&None), "Повторение");
    let weekly = RecurrenceRule { frequency: 1, interval: 1, recurrence_type: 0, days_of_week: vec![1, 3, 5] };
    assert_eq!(
        describe_recurrence(&Some(weekly)),
        "Каждую неделю по понедельникам и средам и пятницам по расписанию"
    );
    let daily = RecurrenceRule { frequency: 0, interval: 2, recurrence_type: 1, days_of_week: vec![] };
    assert_eq!(describe_recurrence(&Some(daily)), "Каждые 2 дня после выполнения");
    let yearly = RecurrenceRule { frequency: 9, interval: 1, recurrence_type: 0, days_of_week: vec![] };
    assert_eq!(describe_recurrence(&Some(yearly)), "Каждый год по расписанию");
    let odd_days = RecurrenceRule { frequency: 1, interval: 3, recurrence_type: 0, days_of_week: vec![0, 9] };
    assert_eq!(
        describe_recurrence(&Some(odd_days)),
        "Каждые 3 недели по понедельникам и воскресеньям по расписанию"
    );
}

#[test]
fn group_labels_by_day() {
    assert_eq!(date_group_label_on(None, "2026-09-20"), "Без даты");
    assert_eq!(date_group_label_on(Some("2026-09-20"), "2026-09-20"), "Сегодня");
    assert_eq!(date_group_label_on(Some("2026-09-21"), "2026-09-20"), "21 сент");
}
