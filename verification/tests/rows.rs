use agenda::lists::GroupKey;
use agenda::model::{new_todo, CalEvent, Project, Status, Todo};
use agenda::rows::{
    day_events, day_items, group_rows_on, kanban_column, logbook_rows, project_page_items,
    recurring_items, sidebar_projects, FlatRow,
};
use agenda::model::RecurrenceRule;

fn project(id: &str, title: &str, status: u8) -> Project {
    Project {
        id: id.to_string(),
        title: title.to_string(),
        status,
        deadline: None,
        sort_order: 0,
        area_id: None,
    }
}

fn task(id: &str, project: Option<&str>, day: Option<&str>) -> Todo {
    let mut t = new_todo(id.to_string(), id);
    t.project_id = project.map(|p| p.to_string());
    t.scheduled_date = day.map(|d| d.to_string());
    t
}

fn show(rows: &[FlatRow]) -> Vec<String> {
    rows.iter()
        .map(|r| match r {
            FlatRow::Header(l, n) => format!("{l} · {n}"),
            FlatRow::Task(i) => format!("#{i}"),
            FlatRow::ArchivedProject(p) => format!("[{}]", p.title),
        })
        .collect()
}

fn items() -> Vec<Todo> {
    vec![
        task("a", Some("p1"), Some("2026-09-21")),
        task("b", None, None),
        task("c", Some("zz"), Some("2026-09-20T09:00:00")),
        task("d", Some("p1"), None),
    ]
}

fn projects() -> Vec<Project> {
    vec![project("p1", "Работа", 0), project("p2", "Дом", 0)]
}

#[test]
fn flat_grouping_lists_every_task_without_captions() {
    let rows = group_rows_on(&items(), &projects(), GroupKey::Flat, "2026-09-20");
    assert_eq!(show(&rows), vec!["#0", "#1", "#2", "#3"]);
    assert!(group_rows_on(&[], &projects(), GroupKey::Flat, "2026-09-20").is_empty());
}

#[test]
fn project_grouping_puts_loose_tasks_first_and_unknown_projects_last() {
    let rows = group_rows_on(&items(), &projects(), GroupKey::Project, "2026-09-20");
    assert_eq!(
        show(&rows),
        vec!["Без проекта · 1", "#1", "Работа · 2", "#0", "#3", "Проект · 1", "#2"]
    );
}

#[test]
fn date_grouping_orders_days_and_puts_undated_last() {
    let rows = group_rows_on(&items(), &projects(), GroupKey::Date, "2026-09-20");
    assert_eq!(
        show(&rows),
        vec!["Сегодня · 1", "#2", "21 сент · 1", "#0", "Без даты · 2", "#1", "#3"]
    );
}

#[test]
fn kanban_columns_split_by_status() {
    let mut v = items();
    v[0].status = Status::Started;
    v[1].is_completed = true;
    v[2].status = Status::Canceled;
    v[3].status = Status::Todo;
    v.push(task("e", None, None));
    assert_eq!(kanban_column(&v, Status::Todo), vec![3, 4]);
    assert_eq!(kanban_column(&v, Status::Started), vec![0]);
    assert_eq!(kanban_column(&v, Status::Done), vec![1]);
}

#[test]
fn logbook_lists_tasks_then_completed_projects() {
    let ps = vec![project("p1", "Работа", 0), project("p3", "Ремонт", 2)];
    let rows = logbook_rows(&items()[..2], &ps);
    assert_eq!(show(&rows), vec!["Задачи · 2", "#0", "#1", "Проекты · 1", "[Ремонт]"]);
    assert!(logbook_rows(&[], &projects()).is_empty());
}

#[test]
fn project_page_hides_trashed_and_archived_tasks() {
    let mut v = items();
    v[3].is_trashed = true;
    let mut old = task("f", Some("p1"), None);
    old.is_completed = true;
    old.completed_at = Some("2026-09-01T10:00:00".to_string());
    v.push(old);
    assert_eq!(project_page_items(&v, &projects(), "p1", "2026-09-20"), vec![0]);
    // a page for an id no project has shows the tasks without a project
    assert_eq!(project_page_items(&v, &projects(), "nope", "2026-09-20"), vec![1]);
}

#[test]
fn recurring_page_lists_repeating_tasks() {
    let mut v = items();
    v[1].recurrence = Some(RecurrenceRule { frequency: 1, interval: 1, recurrence_type: 0, days_of_week: vec![] });
    v[2].recurrence = Some(RecurrenceRule { frequency: 0, interval: 2, recurrence_type: 1, days_of_week: vec![] });
    v[2].is_trashed = true;
    assert_eq!(recurring_items(&v, "2026-09-20"), vec![1]);
}

#[test]
fn calendar_day_shows_its_tasks_and_events() {
    let mut v = items();
    v.push(task("g", None, Some("2026-09-20")));
    v[4].is_trashed = true;
    assert_eq!(day_items(&v, "2026-09-20"), vec![2]);
    let ev = |id: &str, at: &str| CalEvent {
        id: id.to_string(),
        title: id.to_string(),
        starts_at: at.to_string(),
        ends_at: None,
        location: None,
    };
    let events = vec![ev("x", "2026-09-20T10:00:00"), ev("y", "2026-09-21T10:00:00"), ev("z", "2026-09-20")];
    assert_eq!(day_events(&events, "2026-09-20"), vec![0, 2]);
}

#[test]
fn sidebar_lists_active_projects() {
    let ps = vec![project("a", "A", 0), project("b", "B", 1), project("c", "C", 2), project("d", "D", 0)];
    assert_eq!(sidebar_projects(&ps), vec![0, 3]);
}

fn task_positions(rows: &[FlatRow]) -> Vec<usize> {
    let mut v: Vec<usize> = rows
        .iter()
        .filter_map(|r| match r {
            FlatRow::Task(i) => Some(*i),
            _ => None,
        })
        .collect();
    v.sort();
    v
}

#[test]
fn every_grouping_shows_each_task_once() {
    let mut v = items();
    v.push(task("e", Some("p2"), Some("2026-09-21")));
    v.push(task("f", None, Some("2026-09-19")));
    for g in [GroupKey::Flat, GroupKey::Project, GroupKey::Date] {
        let rows = group_rows_on(&v, &projects(), g, "2026-09-20");
        assert_eq!(task_positions(&rows), (0..v.len()).collect::<Vec<usize>>());
    }
}

#[test]
fn kanban_columns_never_share_a_task() {
    let mut v = items();
    v[0].status = Status::Started;
    v[1].is_completed = true;
    v[2].status = Status::Deferred;
    let cols = [Status::Todo, Status::Started, Status::Done].map(|c| kanban_column(&v, c));
    for i in 0..v.len() {
        assert!(cols.iter().filter(|c| c.contains(&i)).count() <= 1);
    }
    assert!(!cols.iter().any(|c| c.contains(&2)));
}
