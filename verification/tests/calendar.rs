use agenda::calendar::{calendar_step_on, calendar_window_on, CalMode};
use agenda::dates::CivilDate;

const TODAY: CivilDate = CivilDate { year: 2025, month: 9, day: 18 };

#[test]
fn day_view_shows_the_anchor_day() {
    let w = calendar_window_on("2025-09-18", CalMode::Day, TODAY).unwrap();
    assert_eq!(w.days, vec!["2025-09-18".to_string()]);
    assert_eq!(w.period, "18 сентября 2025");
}

#[test]
fn week_view_runs_monday_to_sunday() {
    let w = calendar_window_on("2025-09-18", CalMode::Week, TODAY).unwrap();
    assert_eq!(
        w.days,
        vec!["2025-09-15", "2025-09-16", "2025-09-17", "2025-09-18", "2025-09-19", "2025-09-20", "2025-09-21"]
    );
    assert_eq!(w.period, "15 сентября — 21 сентября 2025");
}

#[test]
fn week_across_new_year_names_the_later_year() {
    let w = calendar_window_on("2025-12-31", CalMode::Week, TODAY).unwrap();
    assert_eq!(w.days[0], "2025-12-29");
    assert_eq!(w.days[6], "2026-01-04");
    assert_eq!(w.period, "29 декабря — 4 января 2026");
}

#[test]
fn unreadable_anchor_falls_back_to_today() {
    let w = calendar_window_on("не дата", CalMode::Day, CivilDate { year: 2026, month: 2, day: 3 }).unwrap();
    assert_eq!(w.days, vec!["2026-02-03".to_string()]);
    let w = calendar_window_on("", CalMode::Week, CivilDate { year: 2026, month: 2, day: 1 }).unwrap();
    assert_eq!(w.days[0], "2026-01-26");
}

#[test]
fn buttons_move_the_anchor() {
    assert_eq!(calendar_step_on("2025-09-18", CalMode::Week, 1, TODAY).unwrap(), "2025-09-25");
    assert_eq!(calendar_step_on("2025-09-18", CalMode::Week, -1, TODAY).unwrap(), "2025-09-11");
    assert_eq!(calendar_step_on("2025-09-18", CalMode::Day, -1, TODAY).unwrap(), "2025-09-17");
    assert_eq!(calendar_step_on("2025-03-01", CalMode::Day, -1, TODAY).unwrap(), "2025-02-28");
    assert_eq!(calendar_step_on("2030-01-01", CalMode::Day, 0, TODAY).unwrap(), "2025-09-18");
}

#[test]
fn steps_past_the_calendar_are_refused() {
    assert_eq!(calendar_step_on("2025-09-18", CalMode::Week, i64::MAX, TODAY), None);
    assert_eq!(calendar_step_on("2025-09-18", CalMode::Day, i64::MIN, TODAY), None);
    assert_eq!(calendar_step_on("+262142-12-31", CalMode::Day, 1, TODAY), None);
}
