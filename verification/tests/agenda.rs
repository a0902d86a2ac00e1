use agenda::dates::CivilDate;
use agenda::keys::{InputEvent, KeyEffect};
use agenda::lists::{GroupKey, SortKey};
use agenda::menus::DropKind;
use agenda::model::{task_status, Status};
use agenda::startup::{demo_requested, initial_route, Launch};
use agenda::navigation::{ring_action, row_target, task_more_menu};
use agenda::store::Command;
use agenda::workspace::{Agenda, BoardOpts, BoardView, MenuAction, Moment, Route};

fn today() -> CivilDate {
    CivilDate { year: 2026, month: 9, day: 20 }
}

fn moment(id: &str) -> Moment {
    Moment { today: today(), now: "2026-09-20T12:00:00+00:00".to_string(), fresh_id: id.to_string() }
}

fn demo() -> Agenda {
    Agenda::new(Launch { demo: true, route: None, overlay: None }, today(), "2026-09-20T08:00:00+03:00")
}

fn find<'a>(a: &'a Agenda, id: &str) -> &'a agenda::model::Todo {
    a.todo(id).unwrap_or_else(|| panic!("todo '{id}' missing"))
}

#[test]
fn capture_via_quick_entry() {
    let mut a = demo();
    let title = "Собрать документы для страховой";
    let before = a.records.todos.len();
    assert_eq!(a.on_key("n", true, false, false), KeyEffect::Nothing);
    assert!(a.entry.open);
    assert!(a.on_input_event("qe-title", InputEvent::PressEnter, title, "", &moment("new-1")));
    assert!(!a.entry.open, "quick entry must close after save");
    assert_eq!(a.records.todos.len(), before + 1);
    let t = find(&a, "new-1");
    assert_eq!(t.title, title);
    assert_eq!(t.status, Status::Inbox);
    assert!(!t.is_completed);
    assert_eq!(t.created_at, "2026-09-20T12:00:00+00:00");
    assert_eq!(t.sort_order, before as i32);
}

#[test]
fn escape_dismisses_quick_entry() {
    let mut a = demo();
    let before = a.records.todos.len();
    a.on_key("n", true, false, false);
    assert!(a.entry.open);
    a.on_key("escape", false, false, false);
    assert!(!a.entry.open, "escape must close quick entry");
    assert_eq!(a.records.todos.len(), before, "escape must not save");
}

#[test]
fn quick_entry_reads_day_and_project() {
    let mut a = demo();
    a.on_key("n", true, false, false);
    let ok = a.on_input_event("qe-title", InputEvent::PressEnter, "Заказать билеты @путешествие в японию завтра", "  взять паспорт ", &moment("new-2"));
    assert!(ok);
    let t = find(&a, "new-2");
    assert_eq!(t.title, "Заказать билеты");
    assert_eq!(t.scheduled_date.as_deref(), Some("2026-09-21"));
    assert_eq!(t.project_id.as_deref(), Some("dev-proj-someday"));
    assert_eq!(t.notes.as_deref(), Some("взять паспорт"));
    assert_eq!(t.status, Status::Todo);
    assert!(!t.billable, "ctrl+n starts the entry without billing");
}

#[test]
fn quick_entry_on_today_page_defaults_to_today() {
    let mut a = demo();
    a.panels.navigate(Route::Today);
    a.on_key("n", true, false, false);
    a.entry.date = Some("2026-09-20".to_string());
    a.quick_entry_save("Полить цветы", "", &moment("new-3"));
    let t = find(&a, "new-3");
    assert_eq!(t.scheduled_date.as_deref(), Some("2026-09-20"));
    assert_eq!(t.status, Status::Todo);
}

#[test]
fn blank_quick_entry_saves_nothing() {
    let mut a = demo();
    let before = a.records.todos.len();
    a.on_key("n", true, false, false);
    a.quick_entry_save("   ", "notes", &moment("new-4"));
    assert_eq!(a.records.todos.len(), before);
    assert!(a.entry.open);
}

#[test]
fn absurd_week_count_is_refused() {
    let mut a = demo();
    let before = a.records.todos.len();
    a.on_key("n", true, false, false);
    let ok = a.try_quick_entry_save("через 9223372036854775807 недель", "", &moment("new-5"));
    assert!(!ok);
    assert_eq!(a.records.todos.len(), before);
    assert!(a.entry.open);
}

#[test]
fn status_ring_completes_task() {
    let mut a = demo();
    a.run_menu_action(MenuAction::CompleteTodo("dev-inbox-1".to_string()), &moment("x"));
    let t = find(&a, "dev-inbox-1");
    assert_eq!(task_status(t), Status::Done);
    assert!(t.is_completed);
    assert_eq!(t.completed_at.as_deref(), Some("2026-09-20T12:00:00+00:00"));
}

#[test]
fn done_task_returns_to_work_via_menu() {
    let mut a = demo();
    a.run_menu_action(MenuAction::CompleteTodo("dev-inbox-1".to_string()), &moment("x"));
    a.run_menu_action(MenuAction::OpenTask("dev-inbox-1".to_string()), &moment("x"));
    assert!(matches!(&a.panels.route, Route::Task(id) if id == "dev-inbox-1"));
    a.run_menu_action(MenuAction::CompleteTodo("dev-inbox-1".to_string()), &moment("x"));
    let t = find(&a, "dev-inbox-1");
    assert!(!t.is_completed);
    assert_eq!(task_status(t), Status::Todo);
}

#[test]
fn task_status_dropdown_toggles_round_trip() {
    let mut a = demo();
    let id = Some("dev-inbox-2".to_string());
    // the status chip's dropdown: row 4 is "Готово", row 1 is "Сделать"
    let done = a.dropdown_rows_on(DropKind::Status, &id, today()).swap_remove(4);
    assert_eq!(done.label, "Готово");
    a.run_menu_action(done.action, &moment("x"));
    let t = find(&a, "dev-inbox-2");
    assert_eq!(task_status(t), Status::Done);
    assert!(t.is_completed);
    let rows = a.dropdown_rows_on(DropKind::Status, &id, today());
    assert!(rows[4].checked && !rows[1].checked);
    let todo = a.dropdown_rows_on(DropKind::Status, &id, today()).swap_remove(1);
    assert_eq!(todo.label, "Сделать");
    a.run_menu_action(todo.action, &moment("x"));
    let t = find(&a, "dev-inbox-2");
    assert!(!t.is_completed);
    assert_eq!(task_status(t), Status::Todo);
}

#[test]
fn cancel_stamps_noon_of_today() {
    let mut a = demo();
    a.run_menu_action(MenuAction::SetStatus("dev-inbox-3".to_string(), Status::Canceled), &moment("x"));
    let t = find(&a, "dev-inbox-3");
    assert!(t.is_cancelled);
    assert_eq!(t.completed_at.as_deref(), Some("2026-09-20T12:00:00"));
}

#[test]
fn completing_a_recurring_task_creates_the_next() {
    let mut a = demo();
    let before = a.records.todos.len();
    a.run_menu_action(MenuAction::CompleteTodo("dev-recurring-1".to_string()), &moment("next-1"));
    assert_eq!(a.records.todos.len(), before + 1);
    let next = find(&a, "next-1");
    assert_eq!(next.title, "Поливать цветы");
    assert_eq!(next.status, Status::Todo);
    assert!(!next.is_completed);
    // Weekly on Monday, Wednesday and Friday: after Sunday comes Monday.
    assert_eq!(next.scheduled_date.as_deref(), Some("2026-09-21"));
    assert_eq!(next.sort_order, before as i32);
}

#[test]
fn trash_and_restore_round_trip() {
    let mut a = demo();
    let before = find(&a, "dev-week-4").copy();
    a.run_menu_action(MenuAction::TrashTodo("dev-week-4".to_string()), &moment("x"));
    assert!(find(&a, "dev-week-4").is_trashed);
    a.run_menu_action(MenuAction::RestoreTodo("dev-week-4".to_string()), &moment("x"));
    assert!(agenda::model::todo_equal(find(&a, "dev-week-4"), &before));
}

#[test]
fn sidebar_navigates_lists() {
    let mut a = demo();
    for want in [Route::Today, Route::Someday, Route::Plans, Route::Inbox] {
        a.panels.navigate(want.copy());
        assert!(agenda::workspace::route_equal(&a.panels.route, &want));
    }
}

#[test]
fn settings_open_and_back() {
    let mut a = demo();
    a.panels.more_open = true;
    a.panels.navigate(Route::Settings);
    assert!(matches!(a.panels.route, Route::Settings));
    assert!(!a.panels.more_open);
    let back = a.panels.back_route.copy();
    a.panels.navigate(back);
    assert!(matches!(a.panels.route, Route::Inbox));
}

#[test]
fn settings_pages_keep_the_way_back() {
    let mut a = demo();
    a.panels.navigate(Route::Today);
    a.panels.navigate(Route::Settings);
    a.panels.navigate(Route::About);
    let back = a.panels.back_route.copy();
    a.panels.navigate(back);
    assert!(matches!(a.panels.route, Route::Today));
}

#[test]
fn quick_search_finds_tasks_and_projects() {
    let mut a = demo();
    a.on_key("k", true, false, false);
    assert!(a.search.open);
    a.search.query = "  СОЗВОН ".to_string();
    let (todos, projects) = a.quick_matches();
    assert_eq!(todos.len(), 1);
    assert_eq!(todos[0].id, "dev-today-1");
    assert!(projects.is_empty());
    a.search.query = "о".to_string();
    let (todos, projects) = a.quick_matches();
    assert_eq!(todos.len(), 8);
    assert_eq!(projects.len(), 2);
    a.search.query = "   ".to_string();
    let (todos, projects) = a.quick_matches();
    assert!(todos.is_empty() && projects.is_empty());
}

#[test]
fn quick_search_selection_moves_and_opens() {
    let mut a = demo();
    a.on_key("k", true, false, false);
    a.search.query = "дом".to_string();
    a.on_key("down", false, false, false);
    assert_eq!(a.search.selected, 1);
    a.on_key("down", false, false, false);
    assert_eq!(a.search.selected, 1);
    a.on_key("up", false, false, false);
    a.on_key("up", false, false, false);
    assert_eq!(a.search.selected, 0);
    a.on_input_event("qs", InputEvent::PressEnter, "", "", &moment("x"));
    assert!(!a.search.open);
    assert!(matches!(&a.panels.route, Route::Task(id) if id == "dev-someday-1"));
}

#[test]
fn ctrl_k_closes_search_and_returns_focus() {
    let mut a = demo();
    assert_eq!(a.on_key("k", true, false, false), KeyEffect::Nothing);
    assert_eq!(a.on_key("k", true, false, false), KeyEffect::FocusRoot);
    assert!(!a.search.open);
}

#[test]
fn ctrl_n_on_project_page_preselects_project() {
    let mut a = demo();
    a.panels.navigate(Route::Project("dev-proj-home".to_string()));
    a.on_key("n", true, false, false);
    assert_eq!(a.entry.project.as_deref(), Some("dev-proj-home"));
    assert!(!a.entry.billable);
    a.on_key("n", true, true, false);
    assert!(a.entry.open, "shift+ctrl+n is not the shortcut");
}

#[test]
fn ctrl_b_toggles_sidebar() {
    let mut a = demo();
    assert!(a.panels.sidebar_shown);
    a.on_key("b", true, false, false);
    assert!(!a.panels.sidebar_shown);
    a.on_key("b", true, false, false);
    assert!(a.panels.sidebar_shown);
}

#[test]
fn typing_a_mention_picks_the_project() {
    let mut a = demo();
    a.on_key("n", true, false, false);
    a.on_input_event("qe-title", InputEvent::Change, "починить кран @дом и быт", "", &moment("x"));
    assert_eq!(a.entry.project.as_deref(), Some("dev-proj-home"));
}

#[test]
fn page_titles_and_option_keys() {
    let mut a = demo();
    assert_eq!(a.page_title(), ("Входящие".to_string(), "icons/inbox.svg"));
    assert_eq!(a.view_options_key().as_deref(), Some("agenda.inbox.view"));
    a.panels.navigate(Route::Project("dev-proj-home".to_string()));
    assert_eq!(a.page_title(), ("Дом и быт".to_string(), "icons/folder-open.svg"));
    assert_eq!(a.view_options_key().as_deref(), Some("agenda.project.dev-proj-home.view"));
    a.panels.navigate(Route::Task("missing".to_string()));
    assert_eq!(a.page_title(), ("Задача".to_string(), "icons/task-01.svg"));
    assert_eq!(a.view_options_key(), None);
    assert_eq!(a.current_task_id().as_deref(), Some("missing"));
    a.panels.navigate(Route::Calendar);
    assert_eq!(a.page_title(), ("Календарь".to_string(), "icons/calendar-02.svg"));
    assert_eq!(a.current_task_id(), None);
}

#[test]
fn task_page_title_and_notes_are_saved() {
    let mut a = demo();
    a.panels.navigate(Route::Task("dev-inbox-2".to_string()));
    a.save_task_title("  Записаться к врачу ");
    assert_eq!(find(&a, "dev-inbox-2").title, "Записаться к врачу");
    a.save_task_title("   ");
    assert_eq!(find(&a, "dev-inbox-2").title, "Записаться к врачу");
    a.save_task_notes(" на среду ");
    assert_eq!(find(&a, "dev-inbox-2").notes.as_deref(), Some("на среду"));
    a.save_task_notes("");
    assert_eq!(find(&a, "dev-inbox-2").notes, None);
}

#[test]
fn closing_saves_open_task_edits() {
    let mut a = demo();
    a.panels.navigate(Route::Task("dev-inbox-3".to_string()));
    a.panels.input_task = Some("dev-inbox-3".to_string());
    assert!(a.prepare_close(Some("Виджет погоды".to_string()), None));
    assert_eq!(find(&a, "dev-inbox-3").title, "Виджет погоды");
    assert!(a.prepare_close(Some("Виджет погоды".to_string()), None));
}

#[test]
fn closing_waits_for_busy_storage() {
    let mut a = Agenda::new(Launch { demo: false, route: None, overlay: None }, today(), "now");
    assert!(a.link.busy);
    assert!(!a.prepare_close(None, None));
}

#[test]
fn storage_launch_asks_for_a_load() {
    let a = Agenda::new(Launch { demo: false, route: Some("today".to_string()), overlay: Some("quicksearch".to_string()) }, today(), "now");
    assert!(a.records.todos.is_empty());
    assert!(a.link.connected && a.link.busy && !a.link.ready);
    assert_eq!(a.link.outbox.len(), 1);
    assert!(matches!(a.link.outbox[0], Command::Load));
    assert!(matches!(a.panels.route, Route::Today));
    assert!(a.search.open);
}

#[test]
fn saving_without_storage_explains_why() {
    let mut a = Agenda::new(Launch { demo: false, route: None, overlay: None }, today(), "now");
    a.link.busy = false;
    let t = agenda::model::new_todo("t1".to_string(), "Задача");
    assert!(!a.save_todo(None, t));
    assert_eq!(a.link.error.as_deref(), Some("Подключитесь к Engine и обновите список."));
}

#[test]
fn demo_flags_and_routes() {
    assert!(demo_requested(Some("1"), None));
    assert!(!demo_requested(Some("yes"), None));
    assert!(demo_requested(None, Some("500")));
    assert!(demo_requested(None, Some("+5")));
    assert!(!demo_requested(None, Some("-5")));
    assert!(!demo_requested(None, Some("many")));
    assert!(matches!(initial_route(None), Route::Inbox));
    assert!(matches!(initial_route(Some("settings-fuel")), Route::SettingsFuel));
    assert!(matches!(initial_route(Some("task/dev-inbox-1")), Route::Task(id) if id == "dev-inbox-1"));
    assert!(matches!(initial_route(Some("project/p-1")), Route::Project(id) if id == "p-1"));
    assert!(matches!(initial_route(Some("nowhere")), Route::Inbox));
}

#[test]
fn board_options_are_stored_per_page() {
    let mut a = demo();
    let kanban = BoardOpts { view: BoardView::Kanban, sort: SortKey::Priority, group: GroupKey::Project };
    assert_eq!(a.board_opts("agenda.today.view"), BoardOpts::default());
    a.set_board_opts("agenda.today.view".to_string(), kanban);
    assert_eq!(a.board_opts("agenda.today.view"), kanban);
    assert_eq!(a.board_opts("agenda.inbox.view"), BoardOpts::default());
    let list = BoardOpts { view: BoardView::List, sort: SortKey::Title, group: GroupKey::Date };
    a.set_board_opts("agenda.today.view".to_string(), list);
    assert_eq!(a.board_opts("agenda.today.view"), list);
}

#[test]
fn quick_entry_takes_page_defaults() {
    let mut a = demo();
    a.panels.route = Route::Project("dev-proj-home".to_string());
    a.entry.project = None;
    a.entry.date = None;
    a.apply_entry_defaults(today());
    assert_eq!(a.entry.project.as_deref(), Some("dev-proj-home"));
    assert_eq!(a.entry.date, None);

    let mut a = demo();
    a.panels.route = Route::Today;
    a.apply_entry_defaults(today());
    assert_eq!(a.entry.date.as_deref(), Some("2026-09-20"));
    assert_eq!(a.entry.project, None);

    // a day the user cleared stays cleared
    let mut a = demo();
    a.panels.route = Route::Today;
    a.entry.date_touched = true;
    a.apply_entry_defaults(today());
    assert_eq!(a.entry.date, None);
}

#[test]
fn menu_actions_advance_the_revision() {
    let mut a = demo();
    let r0 = a.records.model_rev;
    a.run_menu_action(MenuAction::Noop, &moment("x"));
    let r1 = a.records.model_rev;
    assert!(r1 > r0);
    a.run_menu_action(MenuAction::CompleteTodo("dev-inbox-1".to_string()), &moment("x"));
    let r2 = a.records.model_rev;
    assert_eq!(r2, r1 + 2);
    a.run_menu_action(MenuAction::DeleteProject("dev-proj-home".to_string()), &moment("x"));
    assert_eq!(a.records.model_rev, r2 + 1);
    assert!(a.panels.delete_blocked);
}

#[test]
fn sidebar_rows_follow_the_page() {
    let mut a = demo();
    a.panels.route = Route::Today;
    let rows = a.sidebar_nav();
    let labels: Vec<&str> = rows.iter().map(|r| r.label.as_str()).collect();
    assert_eq!(labels, vec!["Входящие", "Сегодня", "Планы", "Календарь", "Потом", "Статистика", "Повторяющиеся"]);
    assert_eq!(rows.iter().filter(|r| r.active).count(), 1);
    assert!(rows[1].active);
    assert_eq!(rows[3].icon, "icons/calendar-02.svg");
    a.panels.back_route = Route::Plans;
    a.panels.route = Route::About;
    let rows = a.sidebar_nav();
    let keys: Vec<&str> = rows.iter().map(|r| r.key.as_str()).collect();
    assert_eq!(keys, vec!["back", "appearance", "about"]);
    assert!(matches!(rows[0].route, Route::Plans));
    assert!(!rows[0].active && !rows[1].active && rows[2].active);
}

#[test]
fn task_page_binds_inputs_and_offers_more_menu() {
    let mut a = demo();
    assert!(a.open_task_page("dev-inbox-1"));
    assert_eq!(a.panels.input_task.as_deref(), Some("dev-inbox-1"));
    assert!(!a.open_task_page("dev-inbox-1"));
    assert!(a.open_task_page("dev-inbox-2"));
    let menu = task_more_menu("dev-inbox-2");
    assert_eq!(menu.len(), 2);
    assert_eq!(menu[0].label, "Вернуть в работу");
    assert!(!menu[0].destructive);
    assert!(matches!(&menu[0].action, MenuAction::CompleteTodo(id) if id == "dev-inbox-2"));
    assert_eq!(menu[1].label, "Удалить");
    assert!(menu[1].destructive);
    assert!(matches!(&menu[1].action, MenuAction::TrashTodo(id) if id == "dev-inbox-2"));
    let t = find(&a, "dev-inbox-1");
    assert!(matches!(ring_action(t), MenuAction::CompleteTodo(id) if id == "dev-inbox-1"));
    assert!(matches!(row_target(t), Route::Task(id) if id == "dev-inbox-1"));
}

#[test]
fn devtasks_count_parses_as_usize() {
    assert!(demo_requested(None, Some("+5")));
    assert!(demo_requested(None, Some("0")));
    assert!(!demo_requested(None, Some("-1")));
    assert!(!demo_requested(None, Some("+")));
    assert!(!demo_requested(None, Some("")));
    assert!(!demo_requested(None, Some("12a")));
    assert!(!demo_requested(None, Some("99999999999999999999999")));
}
