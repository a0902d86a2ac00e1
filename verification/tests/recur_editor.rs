use agenda::dates::CivilDate;
use agenda::model::RecurrenceRule;
use agenda::recur_editor::sort_days;
use agenda::startup::Launch;
use agenda::workspace::Agenda;

fn demo() -> Agenda {
    Agenda::new(
        Launch { demo: true, route: None, overlay: None },
        CivilDate { year: 2026, month: 9, day: 20 },
        "2026-09-20T08:00:00+03:00",
    )
}

#[test]
fn sort_days_orders_and_keeps_repeats() {
    assert_eq!(sort_days(&vec![5, 1, 3, 1]), vec![1, 1, 3, 5]);
    assert_eq!(sort_days(&vec![]), Vec::<u8>::new());
}

#[test]
fn opening_on_a_task_without_a_rule_starts_weekly() {
    let mut a = demo();
    a.entry.recur_freq = 3;
    a.entry.recur_days = vec![9];
    a.toggle_recur_editor("dev-inbox-1");
    assert!(a.panels.recur_open);
    assert_eq!((a.entry.recur_freq, a.entry.recur_interval, a.entry.recur_type), (1, 1, 0));
    assert!(a.entry.recur_days.is_empty());
    a.toggle_recur_editor("dev-inbox-1");
    assert!(!a.panels.recur_open);
}

#[test]
fn picking_weekdays_keeps_them_sorted() {
    let mut a = demo();
    a.toggle_recur_editor("dev-inbox-1");
    a.toggle_recur_day(3);
    a.toggle_recur_day(1);
    a.toggle_recur_day(7);
    assert_eq!(a.entry.recur_days, vec![1, 3, 7]);
    a.toggle_recur_day(3);
    assert_eq!(a.entry.recur_days, vec![1, 7]);
    assert_eq!(a.recur_day_marks(), vec![true, false, false, false, false, false, true]);
    a.entry.recur_days = vec![5, 2];
    a.toggle_recur_day(3);
    assert_eq!(a.entry.recur_days, vec![2, 3, 5]);
}

#[test]
fn applying_sets_the_rule_and_closes_the_editor() {
    let mut a = demo();
    a.toggle_recur_editor("dev-inbox-1");
    a.toggle_recur_day(2);
    a.entry.recur_interval = 0;
    a.apply_recurrence("dev-inbox-1");
    assert!(!a.panels.recur_open);
    let r = a.todo("dev-inbox-1").unwrap().recurrence.as_ref().unwrap();
    assert_eq!((r.frequency, r.interval, r.recurrence_type), (1, 1, 0));
    assert_eq!(r.days_of_week, vec![2]);
    // reopening loads the stored rule
    a.entry.recur_days = vec![];
    a.toggle_recur_editor("dev-inbox-1");
    assert_eq!(a.entry.recur_days, vec![2]);
    a.clear_recurrence("dev-inbox-1");
    assert!(!a.panels.recur_open);
    assert!(a.todo("dev-inbox-1").unwrap().recurrence.is_none());
}

#[test]
fn opening_loads_an_existing_rule() {
    let mut a = demo();
    let i = a.records.todos.iter().position(|t| t.id == "dev-inbox-2").unwrap();
    a.records.todos[i].recurrence =
        Some(RecurrenceRule { frequency: 2, interval: 3, recurrence_type: 1, days_of_week: vec![] });
    a.toggle_recur_editor("dev-inbox-2");
    assert_eq!((a.entry.recur_freq, a.entry.recur_interval, a.entry.recur_type), (2, 3, 1));
    assert_eq!(a.recur_captions(), ("Месяц".to_string(), "после выполнения".to_string()));
}

#[test]
fn picking_a_weekday_twice_gives_the_days_back() {
    let mut a = demo();
    a.entry.recur_days = vec![1, 5, 7];
    a.toggle_recur_day(3);
    assert_eq!(a.entry.recur_days, vec![1, 3, 5, 7]);
    a.toggle_recur_day(3);
    assert_eq!(a.entry.recur_days, vec![1, 5, 7]);
}
