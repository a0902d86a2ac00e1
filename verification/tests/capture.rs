use agenda::capture::{parse_project_mention, parse_quick_entry_capture_on};
use agenda::dates::CivilDate;
use agenda::model::Project;

fn project(id: &str, title: &str) -> Project {
    Project {
        id: id.to_string(),
        title: title.to_string(),
        status: 0,
        deadline: None,
        sort_order: 0,
        area_id: None,
    }
}

fn sunday() -> CivilDate {
    CivilDate { year: 2026, month: 9, day: 20 }
}

fn capture(title: &str) -> Option<(String, Option<String>)> {
    parse_quick_entry_capture_on(title, None, sunday())
}

#[test]
fn mention_prefers_longer_project_title() {
    let projects = vec![project("home", "Дом"), project("home-life", "Дом и быт")];
    let (title, id) = parse_project_mention("Купить лампу @дом и быт", &projects);
    assert_eq!(title, "Купить лампу");
    assert_eq!(id.as_deref(), Some("home-life"));
}

#[test]
fn mention_is_case_insensitive_and_removed() {
    let projects = vec![project("home", "Дом")];
    let (title, id) = parse_project_mention("Позвонить   @ДОМ  вечером", &projects);
    assert_eq!(title, "Позвонить вечером");
    assert_eq!(id.as_deref(), Some("home"));
}

#[test]
fn mention_needs_word_boundaries() {
    let projects = vec![project("home", "Дом")];
    assert_eq!(parse_project_mention("почта@дом", &projects), ("почта@дом".to_string(), None));
    assert_eq!(parse_project_mention("see @домик", &projects), ("see @домик".to_string(), None));
    assert_eq!(parse_project_mention("see @дом_2", &projects), ("see @дом_2".to_string(), None));
    let (title, id) = parse_project_mention("see @дом, please", &projects);
    assert_eq!(title, "see , please");
    assert_eq!(id.as_deref(), Some("home"));
}

#[test]
fn mention_only_first_occurrence_counts() {
    let projects = vec![project("home", "Дом")];
    // The first "@дом" is glued to a word, so the later one is not looked at.
    assert_eq!(parse_project_mention("x@дом @дом", &projects), ("x@дом @дом".to_string(), None));
}

#[test]
fn mention_alone_keeps_title() {
    let projects = vec![project("home", "Дом")];
    let (title, id) = parse_project_mention("@дом", &projects);
    assert_eq!(title, "@дом");
    assert_eq!(id.as_deref(), Some("home"));
}

#[test]
fn mention_ties_go_to_first_listed() {
    let projects = vec![project("a", "Сад"), project("b", "Сад")];
    let (_, id) = parse_project_mention("полить @сад", &projects);
    assert_eq!(id.as_deref(), Some("a"));
}

#[test]
fn no_projects_no_mention() {
    assert_eq!(parse_project_mention("@дом", &[]), ("@дом".to_string(), None));
}

#[test]
fn capture_tomorrow() {
    assert_eq!(
        capture("Позвонить маме завтра"),
        Some(("Позвонить маме".to_string(), Some("2026-09-21".to_string())))
    );
}

#[test]
fn capture_today_and_after_tomorrow() {
    assert_eq!(
        capture("Сегодня купить хлеб"),
        Some(("купить хлеб".to_string(), Some("2026-09-20".to_string())))
    );
    assert_eq!(
        capture("сдать отчёт послезавтра!"),
        Some(("сдать отчёт".to_string(), Some("2026-09-22".to_string())))
    );
}

#[test]
fn capture_weekdays() {
    assert_eq!(
        capture("встреча в среду"),
        Some(("встреча в".to_string(), Some("2026-09-23".to_string())))
    );
    // Today is Sunday: the same weekday means a week on.
    assert_eq!(
        capture("отчёт в воскресенье"),
        Some(("отчёт в".to_string(), Some("2026-09-27".to_string())))
    );
    assert_eq!(
        capture("понедельник: планёрка"),
        Some(("планёрка".to_string(), Some("2026-09-21".to_string())))
    );
}

#[test]
fn capture_in_days_and_weeks() {
    assert_eq!(
        capture("сдать проект через 2 недели"),
        Some(("сдать проект".to_string(), Some("2026-10-04".to_string())))
    );
    assert_eq!(
        capture("через 3 дня позвонить"),
        Some(("позвонить".to_string(), Some("2026-09-23".to_string())))
    );
    // Without a unit the count is in days; nothing else is left of the title.
    assert_eq!(capture("через 5"), Some(("через 5".to_string(), Some("2026-09-25".to_string()))));
}

#[test]
fn capture_without_a_date() {
    assert_eq!(capture("просто задача"), Some(("просто задача".to_string(), None)));
    assert_eq!(capture("через неделю"), Some(("через неделю".to_string(), None)));
    assert_eq!(capture(""), Some(("".to_string(), None)));
}

#[test]
fn capture_keeps_selected_day() {
    assert_eq!(
        parse_quick_entry_capture_on("завтра", Some("2026-10-01".to_string()), sunday()),
        Some(("завтра".to_string(), Some("2026-10-01".to_string())))
    );
}

#[test]
fn capture_offsets_assume_single_spaces() {
    // Two spaces shift the offsets: the cut would split a character, so
    // the whole title is kept, squashed.
    assert_eq!(
        capture("Купить  хлеб завтра"),
        Some(("Купить хлеб завтра".to_string(), Some("2026-09-21".to_string())))
    );
}

#[test]
fn capture_refuses_days_past_the_calendar() {
    assert_eq!(capture("через 99999999999999 дней"), None);
    assert_eq!(capture("через 9223372036854775807 недель"), None);
}
