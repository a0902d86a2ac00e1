use agenda::dates::CivilDate;
use agenda::lists::{filter_todos_on, overdue_todos, sorted, SmartList, SortKey};
use agenda::model::{
    is_archived, is_deferred, is_due_today, is_inbox, is_overdue, new_todo, task_date, task_status,
    Status, Todo,
};
use agenda::seeds::seed_todos_on;

fn seeds() -> Vec<Todo> {
    seed_todos_on(CivilDate { year: 2026, month: 9, day: 20 }, "2026-09-20T08:00:00+03:00")
}

fn ids(v: &[Todo]) -> Vec<String> {
    v.iter().map(|t| t.id.clone()).collect()
}

const TODAY: &str = "2026-09-20";

#[test]
fn today_list_puts_overdue_first() {
    let v = filter_todos_on(SmartList::Today, &seeds(), TODAY);
    assert_eq!(
        ids(&v),
        vec!["dev-overdue-1", "dev-today-1", "dev-today-2", "dev-today-evening", "dev-recurring-1", "dev-done-today"]
    );
}

#[test]
fn inbox_someday_trash_logbook() {
    let all = seeds();
    assert_eq!(ids(&filter_todos_on(SmartList::Inbox, &all, TODAY)), vec!["dev-inbox-1", "dev-inbox-2", "dev-inbox-3"]);
    assert_eq!(ids(&filter_todos_on(SmartList::Someday, &all, TODAY)), vec!["dev-someday-1"]);
    assert_eq!(ids(&filter_todos_on(SmartList::Trash, &all, TODAY)), vec!["dev-trash-1"]);
    assert_eq!(ids(&filter_todos_on(SmartList::Logbook, &all, TODAY)), vec!["dev-done-yesterday"]);
}

#[test]
fn plans_are_sorted_by_day() {
    let v = filter_todos_on(SmartList::Plans, &seeds(), TODAY);
    assert_eq!(ids(&v), vec!["dev-checklist-1", "dev-week-2", "dev-week-3", "dev-week-4", "dev-next-week-1"]);
}

#[test]
fn overdue_sorted_by_day_then_order() {
    let mut a = new_todo("a".to_string(), "A");
    a.status = Status::Todo;
    a.scheduled_date = Some("2026-09-10".to_string());
    a.sort_order = 5;
    let mut b = new_todo("b".to_string(), "B");
    b.status = Status::Todo;
    b.scheduled_date = Some("2026-09-01".to_string());
    b.sort_order = 9;
    let mut c = new_todo("c".to_string(), "C");
    c.status = Status::Todo;
    c.scheduled_date = Some("2026-09-10T08:00:00".to_string());
    c.sort_order = 1;
    let v = overdue_todos(&[a, b, c], TODAY);
    assert_eq!(ids(&v), vec!["b", "c", "a"]);
}

#[test]
fn sorting_by_keys() {
    let all = seeds();
    let by_priority = sorted(&all, SortKey::Priority);
    assert_eq!(by_priority[0].id, "dev-today-1");
    assert_eq!(by_priority[1].id, "dev-overdue-1");
    assert_eq!(by_priority[2].id, "dev-next-week-1");
    assert_eq!(by_priority[3].id, "dev-inbox-2");
    let unchanged = sorted(&all, SortKey::Default);
    assert_eq!(ids(&unchanged), ids(&all));
    let by_title = sorted(&all, SortKey::Title);
    assert_eq!(by_title[0].id, "dev-overdue-1");
    let by_date = sorted(&all, SortKey::Date);
    assert_eq!(by_date[0].id, "dev-overdue-1");
    assert_eq!(by_date[1].id, "dev-today-2");
    assert_eq!(by_date.len(), all.len());
}

#[test]
fn lifecycle_predicates() {
    let all = seeds();
    let t = |id: &str| all.iter().find(|t| t.id == id).unwrap().copy();
    assert!(is_inbox(&t("dev-inbox-1")));
    assert!(!is_inbox(&t("dev-trash-1")));
    assert!(is_deferred(&t("dev-someday-1")));
    assert!(is_overdue(&t("dev-overdue-1"), TODAY));
    assert!(!is_due_today(&t("dev-overdue-1"), TODAY));
    assert!(is_due_today(&t("dev-today-2"), TODAY));
    assert!(is_due_today(&t("dev-today-evening"), TODAY));
    assert!(is_archived(&t("dev-done-yesterday"), TODAY));
    assert!(!is_archived(&t("dev-done-today"), TODAY));
    assert_eq!(task_status(&t("dev-canceled-1")), Status::Canceled);
    assert_eq!(task_status(&t("dev-week-2")), Status::Started);
}

#[test]
fn conflicting_dates_have_no_day() {
    let mut x = new_todo("x".to_string(), "X");
    x.scheduled_date = Some("2026-09-21".to_string());
    x.deadline = Some("2026-09-22T10:00:00".to_string());
    assert_eq!(task_date(&x), (None, true));
    x.deadline = Some("2026-09-21T23:00:00".to_string());
    assert_eq!(task_date(&x), (Some("2026-09-21".to_string()), false));
    x.scheduled_date = None;
    x.deadline = Some("short".to_string());
    assert_eq!(task_date(&x), (None, false));
}
