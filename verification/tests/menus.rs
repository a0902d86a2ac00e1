use agenda::dates::CivilDate;
use agenda::lists::{GroupKey, SortKey};
use agenda::menus::{options_rows, DropKind, DropRow, OptAct};
use agenda::model::Status;
use agenda::startup::Launch;
use agenda::workspace::{Agenda, BoardOpts, BoardView, MenuAction};

fn today() -> CivilDate {
    CivilDate { year: 2026, month: 9, day: 20 }
}

fn demo() -> Agenda {
    Agenda::new(Launch { demo: true, route: None, overlay: None }, today(), "2026-09-20T08:00:00+03:00")
}

fn rows(a: &Agenda, kind: DropKind, id: Option<&str>) -> Vec<DropRow> {
    a.dropdown_rows_on(kind, &id.map(|s| s.to_string()), today())
}

fn labels(v: &[DropRow]) -> Vec<String> {
    v.iter().map(|r| r.label.clone()).collect()
}

fn checked(v: &[DropRow]) -> Vec<usize> {
    v.iter().filter(|r| r.checked).map(|r| r.index).collect()
}

#[test]
fn status_dropdown_checks_the_current_status() {
    let a = demo();
    let v = rows(&a, DropKind::Status, Some("dev-today-1"));
    assert_eq!(labels(&v), vec!["Входящие", "Сделать", "В работе", "Потом", "Готово", "Отменено"]);
    assert_eq!(checked(&v), vec![1]);
    assert!(matches!(&v[4].action, MenuAction::SetStatus(id, Status::Done) if id == "dev-today-1"));
}

#[test]
fn priority_dropdown_checks_the_priority() {
    let a = demo();
    let v = rows(&a, DropKind::Priority, Some("dev-overdue-1"));
    assert_eq!(labels(&v), vec!["Без приоритета", "Низкий", "Средний", "Высокий"]);
    assert_eq!(checked(&v), vec![3]);
    assert!(matches!(&v[0].action, MenuAction::SetPriority(id, 0) if id == "dev-overdue-1"));
    // without a task the dropdown shows priority 0
    assert_eq!(checked(&rows(&a, DropKind::Priority, None)), vec![0]);
}

#[test]
fn project_dropdown_skips_completed_projects() {
    let mut a = demo();
    a.records.projects[2].status = 2;
    let v = rows(&a, DropKind::Project, Some("dev-today-2"));
    assert_eq!(labels(&v), vec!["Без проекта", "Релиз Agenda 1.0", "Дом и быт"]);
    assert_eq!(v.iter().map(|r| r.index).collect::<Vec<_>>(), vec![0, 1, 2]);
    assert_eq!(checked(&v), vec![1]);
    assert!(matches!(&v[2].action, MenuAction::SetProject(id, Some(p)) if id == "dev-today-2" && p == "dev-proj-home"));
    assert!(matches!(&v[0].action, MenuAction::SetProject(_, None)));
}

#[test]
fn quick_entry_project_dropdown_starts_with_inbox() {
    let mut a = demo();
    let v = rows(&a, DropKind::QeProject, None);
    assert_eq!(v[0].label, "Входящие");
    assert_eq!(checked(&v), vec![0]);
    a.entry.project = Some("dev-proj-home".to_string());
    let v = rows(&a, DropKind::QeProject, None);
    assert_eq!(checked(&v), vec![2]);
    assert!(matches!(&v[1].action, MenuAction::QeSetProject(Some(p)) if p == "dev-proj-release"));
}

#[test]
fn tag_dropdown_checks_the_tasks_tags() {
    let a = demo();
    let v = rows(&a, DropKind::Tags, Some("dev-today-1"));
    assert_eq!(labels(&v), vec!["срочно", "фокус", "дом"]);
    assert_eq!(checked(&v), vec![0, 1]);
    assert!(matches!(&v[2].action, MenuAction::AddTag(id, t) if id == "dev-today-1" && t == "dev-tag-home"));
}

#[test]
fn significance_dropdown_lists_ten_marks() {
    let a = demo();
    let v = rows(&a, DropKind::Significance, Some("dev-week-2"));
    assert_eq!(v.len(), 11);
    assert_eq!(v[0].label, "Не оценено");
    assert_eq!(v[7].label, "7/10");
    assert_eq!(v[10].label, "10/10");
    assert_eq!(checked(&v), vec![7]);
    assert!(matches!(&v[10].action, MenuAction::SetSignificance(_, Some(10))));
}

#[test]
fn billable_dropdown() {
    let a = demo();
    let v = rows(&a, DropKind::Billable, Some("dev-today-2"));
    assert_eq!(labels(&v), vec!["Без оплаты", "Оплачиваемая"]);
    assert_eq!(checked(&v), vec![1]);
    assert_eq!(checked(&rows(&a, DropKind::Billable, Some("dev-inbox-1"))), vec![0]);
}

#[test]
fn date_dropdown_offers_today_tomorrow_and_next_week() {
    let a = demo();
    let v = rows(&a, DropKind::Date, Some("dev-today-2"));
    assert_eq!(labels(&v), vec!["Сегодня", "Завтра", "Через неделю", "Без даты"]);
    assert_eq!(checked(&v), vec![0]);
    assert!(matches!(&v[1].action, MenuAction::SetDate(id, Some(d)) if id == "dev-today-2" && d == "2026-09-21"));
    assert!(matches!(&v[2].action, MenuAction::SetDate(_, Some(d)) if d == "2026-09-27"));
    // the quick entry's dropdown belongs to no task: "no day" is the current one
    let q = rows(&a, DropKind::QeDate, None);
    assert_eq!(checked(&q), vec![3]);
    assert!(matches!(&q[0].action, MenuAction::QeSetDate(Some(d)) if d == "2026-09-20"));
}

#[test]
fn recurrence_editor_dropdowns() {
    let mut a = demo();
    let v = rows(&a, DropKind::RecurFreq, None);
    assert_eq!(labels(&v), vec!["День", "Неделя", "Месяц", "Год"]);
    assert_eq!(checked(&v), vec![0]);
    a.entry.recur_type = 1;
    let v = rows(&a, DropKind::RecurType, None);
    assert_eq!(labels(&v), vec!["по расписанию", "после выполнения"]);
    assert_eq!(checked(&v), vec![1]);
    assert!(matches!(v[0].action, MenuAction::RecurSetType(0)));
}

#[test]
fn task_chips_caption_the_properties() {
    let a = demo();
    let c = a.task_chips_on(a.todo("dev-today-2").unwrap(), "2026-09-20");
    assert_eq!(c.status, "Сделать");
    assert_eq!(c.priority, "Без приоритета");
    assert!(!c.overdue);
    assert_eq!(c.date.as_deref(), Some("2026-09-20"));
    assert_eq!(c.date_label, "20 сент");
    assert_eq!(c.project, "Релиз Agenda 1.0");
    assert!(c.tags.is_empty());
    assert_eq!(c.recurrence, "Повторение");
    assert_eq!(c.significance, "Не оценено");
    assert_eq!(c.billable, "Оплачиваемая $15000");
    assert_eq!(c.fuel, None);

    let c = a.task_chips_on(a.todo("dev-overdue-1").unwrap(), "2026-09-20");
    assert!(c.overdue);
    assert_eq!(c.priority, "Высокий");
    assert_eq!(c.date_label, "19 сент");
    assert_eq!(c.project, "Без проекта");
    assert_eq!(c.tags, vec![0]);
    assert_eq!(c.fuel.as_deref(), Some("~20%"));

    let c = a.task_chips_on(a.todo("dev-today-1").unwrap(), "2026-09-20");
    assert_eq!(c.tags, vec![0, 1]);
    assert_eq!(c.date, None);
    assert_eq!(c.date_label, "Срок");

    let c = a.task_chips_on(a.todo("dev-week-2").unwrap(), "2026-09-20");
    assert_eq!(c.status, "В работе");
    assert_eq!(c.significance, "7/10");
}

#[test]
fn quick_entry_chips() {
    let mut a = demo();
    a.entry.billable = false;
    let c = a.qe_chips();
    assert_eq!((c.date_label.as_str(), c.has_date), ("Срок", false));
    assert_eq!(c.billable, "Без оплаты");
    assert_eq!(c.project, "Входящие");
    a.entry.date = Some("2026-09-21".to_string());
    a.entry.billable = true;
    a.entry.project = Some("dev-proj-home".to_string());
    let c = a.qe_chips();
    assert_eq!((c.date_label.as_str(), c.has_date), ("21 сент", true));
    assert_eq!(c.billable, "Оплачиваемая");
    assert_eq!(c.project, "Дом и быт");
}

#[test]
fn options_popover_lists_view_sort_and_grouping() {
    let list = BoardOpts { view: BoardView::List, sort: SortKey::Date, group: GroupKey::Project };
    let v = options_rows(list);
    let labels: Vec<&str> = v.iter().map(|r| r.label).collect();
    assert_eq!(
        labels,
        vec!["Список", "Доска", "По умолчанию", "По дате", "По приоритету", "По названию", "Нет", "По проекту", "По дате"]
    );
    let on: Vec<usize> = v.iter().filter(|r| r.checked).map(|r| r.index).collect();
    assert_eq!(on, vec![0, 3, 7]);
    let board = BoardOpts { view: BoardView::Kanban, ..list };
    let v = options_rows(board);
    assert_eq!(v.len(), 6);
    assert_eq!(v[1].act, OptAct::View(BoardView::Kanban));
    assert!(v[1].checked);

    let mut a = demo();
    a.choose_option("agenda.inbox.view".to_string(), OptAct::Sort(SortKey::Priority));
    a.choose_option("agenda.inbox.view".to_string(), OptAct::Group(GroupKey::Date));
    let o = a.board_opts("agenda.inbox.view");
    assert_eq!((o.view, o.sort, o.group), (BoardView::List, SortKey::Priority, GroupKey::Date));
    let other = a.board_opts("agenda.today.view");
    assert_eq!((other.sort, other.group), (SortKey::Default, GroupKey::Flat));
}

#[test]
fn task_rows_show_meta_and_offer_actions() {
    let a = demo();
    let r = a.task_row_on(a.todo("dev-overdue-1").unwrap(), "2026-09-20", true);
    assert!(r.overdue && r.move_today && r.status_chip && !r.done);
    assert_eq!(r.tags, vec![0]);
    assert_eq!(r.date.as_deref(), Some("19 сент"));
    assert_eq!(r.checklist, None);
    assert_eq!(r.project, None);
    assert_eq!(r.menu.len(), 1);
    assert_eq!((r.menu[0].label.as_str(), r.menu[0].destructive), ("Удалить", true));
    assert!(matches!(&r.menu[0].action, MenuAction::TrashTodo(id) if id == "dev-overdue-1"));
    // a read-only list offers nothing
    let r = a.task_row_on(a.todo("dev-overdue-1").unwrap(), "2026-09-20", false);
    assert!(r.overdue && !r.move_today && !r.status_chip);

    let r = a.task_row_on(a.todo("dev-checklist-1").unwrap(), "2026-09-20", true);
    assert_eq!(r.checklist.as_deref(), Some("1/3"));
    assert_eq!(r.project.as_deref(), Some("Релиз Agenda 1.0"));
    assert!(!r.overdue);

    let r = a.task_row_on(a.todo("dev-today-2").unwrap(), "2026-09-20", true);
    assert_eq!(r.price.as_deref(), Some("$15000"));

    let r = a.task_row_on(a.todo("dev-done-today").unwrap(), "2026-09-20", true);
    assert!(r.done && !r.status_chip && !r.move_today);

    let r = a.task_row_on(a.todo("dev-trash-1").unwrap(), "2026-09-20", true);
    assert!(!r.status_chip && !r.move_today);
    assert_eq!(r.menu.iter().map(|m| m.label.as_str()).collect::<Vec<_>>(), vec!["Восстановить", "Удалить"]);
    assert!(matches!(&r.menu[0].action, MenuAction::RestoreTodo(id) if id == "dev-trash-1"));
    assert!(matches!(r.menu[1].action, MenuAction::Noop));
}

fn moment() -> agenda::workspace::Moment {
    agenda::workspace::Moment {
        today: today(),
        now: "2026-09-20T12:00:00+00:00".to_string(),
        fresh_id: "fresh".to_string(),
    }
}

#[test]
fn a_picked_value_is_checked_when_the_dropdown_opens_again() {
    let mut a = demo();
    let id = Some("dev-inbox-3".to_string());
    for (kind, row) in [
        (DropKind::Priority, 2),
        (DropKind::Billable, 1),
        (DropKind::Significance, 8),
        (DropKind::Status, 2),
        (DropKind::Status, 4),
        (DropKind::Date, 1),
        (DropKind::Date, 3),
        (DropKind::Date, 0),
    ] {
        let picked = a.dropdown_rows_on(kind, &id, today()).swap_remove(row);
        a.run_menu_action(picked.action, &moment());
        let again = a.dropdown_rows_on(kind, &id, today());
        assert_eq!(checked(&again), vec![row], "{:?}", kind);
    }
}
