use agenda::dates::today_key;
use agenda::doc::DocNode;
use agenda::mapping::{new_object, read, write_at, EngineProps, EngineRule, EngineTask, TaskExt};
use agenda::model::{is_due_today, new_todo, todo_equal, ChecklistItem, RecurrenceRule, Status};
use agenda::store::{after_next_failed, load_tasks, save_step, Rollback, SaveStep};

fn bare_ext() -> TaskExt {
    TaskExt {
        priority: None,
        scheduled_date: None,
        deadline: None,
        reminder_date: None,
        is_today: None,
        is_evening: None,
        is_someday: None,
        status: None,
        system_kind: None,
        is_completed: None,
        completed_at: None,
        is_cancelled: None,
        is_trashed: None,
        created_at: None,
        heading_id: None,
        project_id: None,
        area_id: None,
        tag_ids: None,
        billable: None,
        price: None,
        significance: None,
        fuel_cost: None,
        sort_order: None,
        description: None,
        checklist_items: None,
        recurrence_rule: None,
        cancelled_at: None,
        bucket: None,
        unknown: vec![],
    }
}

fn bare_props(ext: TaskExt) -> EngineProps {
    EngineProps {
        status: None,
        priority: None,
        priority_word: None,
        scheduled_at: None,
        due_at: None,
        reminder_at: None,
        completed_at: None,
        canceled_at: None,
        checklist: None,
        recurrence: None,
        ext,
        other: vec![],
    }
}

fn node(kind: &str, text: Option<&str>, content: Option<Vec<DocNode>>) -> DocNode {
    DocNode { text: text.map(|s| s.to_string()), kind: Some(kind.to_string()), content }
}

fn rich_doc(text: &str) -> DocNode {
    node("doc", None, Some(vec![node("paragraph", None, Some(vec![node("text", Some(text), None)]))]))
}

fn object(id: &str, props: EngineProps) -> EngineTask {
    EngineTask {
        id: Some(id.to_string()),
        type_id: Some("com.kosmos.task".to_string()),
        type_version: Some("1.0.0".to_string()),
        title: Some(id.to_uppercase()),
        created_at: Some("2026-09-20T10:00:00Z".to_string()),
        updated_at: Some("2026-09-20T10:00:00Z".to_string()),
        deleted_at: None,
        content: None,
        props,
        other: vec![],
    }
}

fn task_object(id: &str, sort_order: Option<i32>) -> EngineTask {
    let mut ext = bare_ext();
    ext.sort_order = sort_order;
    object(id, bare_props(ext))
}

fn same_doc(a: &DocNode, b: &DocNode) -> bool {
    a.text == b.text
        && a.kind == b.kind
        && match (&a.content, &b.content) {
            (Some(x), Some(y)) => x.len() == y.len() && x.iter().zip(y).all(|(p, q)| same_doc(p, q)),
            (None, None) => true,
            _ => false,
        }
}

fn same_content(a: &Option<DocNode>, b: &Option<DocNode>) -> bool {
    match (a, b) {
        (Some(x), Some(y)) => same_doc(x, y),
        (None, None) => true,
        _ => false,
    }
}

fn vue_object() -> EngineTask {
    let mut ext = bare_ext();
    ext.priority = Some(3);
    ext.project_id = Some("real-project".to_string());
    ext.tag_ids = Some(vec!["real-tag".to_string()]);
    ext.significance = Some(7);
    ext.fuel_cost = Some(12);
    ext.price = Some(150);
    ext.unknown = vec![
        ("linked_todo_ids".to_string(), "[\"other-task\"]".to_string()),
        ("foreign".to_string(), "{\"secret\":\"preserved\"}".to_string()),
    ];
    let mut props = bare_props(ext);
    props.status = Some("inProgress".to_string());
    props.priority_word = Some("high".to_string());
    props.scheduled_at = Some(today_key());
    props.checklist = Some(vec![ChecklistItem { is_completed: true }]);
    EngineTask {
        id: Some("real-id".to_string()),
        type_id: Some("com.kosmos.task".to_string()),
        type_version: Some("1.0.0".to_string()),
        title: Some("From Vue".to_string()),
        created_at: Some("2026-09-20T10:00:00Z".to_string()),
        updated_at: Some("2026-09-20T10:00:00Z".to_string()),
        deleted_at: None,
        content: Some(rich_doc("Rich notes")),
        props,
        other: vec![],
    }
}

#[test]
fn mapping_preserves_unrepresented_fields() {
    let stored = vue_object();
    let before = read(&stored).unwrap();
    assert_eq!(before.status, Status::Started);
    assert_eq!(before.fuel_cost, Some(12));
    assert_eq!(before.price, Some(150));
    assert_eq!(before.notes.as_deref(), Some("Rich notes"));
    assert_eq!(before.project_id.as_deref(), Some("real-project"));
    assert!(is_due_today(&before, &today_key()));
    let mut edited = before.copy();
    edited.title = "Renamed".into();
    let written = agenda::mapping::write(Some(vue_object()), Some(&before), &edited).unwrap();
    assert!(same_content(&written.content, &stored.content));
    assert_eq!(written.props, stored.props);
    assert!(todo_equal(&read(&written).unwrap(), &edited));
    edited.status = Status::Deferred;
    let deferred = agenda::mapping::write(Some(written), Some(&before), &edited).unwrap();
    assert_eq!(read(&deferred).unwrap().status, Status::Deferred);
    edited.status = Status::Todo;
    let resumed = agenda::mapping::write(Some(deferred), None, &edited).unwrap();
    assert_eq!(read(&resumed).unwrap().status, Status::Todo);
}

#[test]
fn read_refuses_objects_that_are_no_tasks() {
    let mut o = task_object("a", None);
    o.type_id = Some("com.kosmos.note".to_string());
    assert_eq!(read(&o).err().as_deref(), Some("Engine вернул некорректную задачу"));
    let mut o = task_object("a", None);
    o.id = None;
    assert_eq!(read(&o).err().as_deref(), Some("Engine вернул некорректную задачу"));
    let mut o = task_object("a", None);
    o.props.recurrence = Some(EngineRule {
        frequency: None,
        frequency_word: Some("hourly".to_string()),
        interval: Some(1),
        recurrence_type: None,
        type_word: None,
        days_of_week: None,
        end_date: None,
        day_of_month: None,
    });
    assert_eq!(read(&o).err().as_deref(), Some("Некорректная периодичность задачи"));
}

#[test]
fn read_falls_back_to_engine_fields() {
    let mut o = task_object("a", Some(4));
    o.props.status = Some("done".to_string());
    o.props.priority = Some(9);
    o.props.due_at = Some("2026-10-01".to_string());
    o.props.ext.checklist_items = Some(vec![ChecklistItem { is_completed: false }]);
    o.props.ext.bucket = Some("backlog".to_string());
    o.deleted_at = Some("2026-10-02T00:00:00Z".to_string());
    o.props.recurrence = Some(EngineRule {
        frequency: None,
        frequency_word: Some("monthly".to_string()),
        interval: Some(2),
        recurrence_type: None,
        type_word: Some("afterCompletion".to_string()),
        days_of_week: None,
        end_date: None,
        day_of_month: Some(5),
    });
    let t = read(&o).unwrap();
    assert_eq!(t.title, "A");
    assert_eq!(t.status, Status::Done);
    assert!(t.is_completed);
    assert!(!t.is_cancelled);
    assert_eq!(t.priority, 3);
    assert_eq!(t.deadline.as_deref(), Some("2026-10-01"));
    assert_eq!(t.checklist.len(), 1);
    assert!(t.is_trashed);
    assert_eq!(t.created_at, "2026-09-20T10:00:00Z");
    assert_eq!(t.sort_order, 4);
    assert_eq!(t.notes, None);
    let r = t.recurrence.unwrap();
    assert_eq!((r.frequency, r.interval, r.recurrence_type), (2, 2, 1));
    assert!(r.days_of_week.is_empty());
}

#[test]
fn open_task_in_backlog_reads_deferred() {
    let mut o = task_object("a", None);
    o.props.status = Some("todo".to_string());
    o.props.ext.bucket = Some("backlog".to_string());
    assert_eq!(read(&o).unwrap().status, Status::Deferred);
}

#[test]
fn new_task_written_into_fresh_object() {
    let mut t = new_todo("n-1".to_string(), "New");
    t.status = Status::Deferred;
    t.priority = 2;
    t.scheduled_date = Some("2026-10-05".to_string());
    t.recurrence = Some(RecurrenceRule { frequency: 1, interval: 1, recurrence_type: 0, days_of_week: vec![1, 3] });
    let o = write_at(None, None, &t, "2026-10-01T08:00:00+00:00");
    assert_eq!(o.id.as_deref(), Some("n-1"));
    assert_eq!(o.type_id.as_deref(), Some("com.kosmos.task"));
    assert_eq!(o.type_version.as_deref(), Some("1.0.0"));
    assert_eq!(o.title.as_deref(), Some("New"));
    assert_eq!(o.updated_at.as_deref(), Some("2026-10-01T08:00:00+00:00"));
    assert_eq!(o.deleted_at, None);
    assert_eq!(o.props.status.as_deref(), Some("todo"));
    assert_eq!(o.props.ext.status.as_deref(), Some("deferred"));
    assert_eq!(o.props.ext.bucket.as_deref(), Some("backlog"));
    assert_eq!(o.props.priority_word.as_deref(), Some("medium"));
    assert_eq!(o.props.priority, None);
    assert_eq!(o.props.ext.priority, Some(2));
    assert_eq!(o.props.scheduled_at.as_deref(), Some("2026-10-05"));
    assert_eq!(o.props.checklist, Some(vec![]));
    assert_eq!(o.props.ext.checklist_items, Some(vec![]));
    let words = o.props.recurrence.clone().unwrap();
    assert_eq!(words.frequency_word.as_deref(), Some("weekly"));
    assert_eq!(words.type_word.as_deref(), Some("fixed"));
    assert_eq!(words.days_of_week, Some(vec![1, 3]));
    let numbers = o.props.ext.recurrence_rule.clone().unwrap();
    assert_eq!(numbers.frequency, Some(1));
    assert_eq!(numbers.recurrence_type, Some(0));
    let back = read(&o).unwrap();
    assert!(todo_equal(&back, &t));
    let fresh = new_object(&t);
    assert_eq!(fresh.props.ext, bare_ext());
}

#[test]
fn write_stamps_cancel_and_trash_and_keeps_rule_ends() {
    let mut o = task_object("a", None);
    o.props.recurrence = Some(EngineRule {
        frequency: None,
        frequency_word: Some("daily".to_string()),
        interval: Some(1),
        recurrence_type: None,
        type_word: Some("fixed".to_string()),
        days_of_week: None,
        end_date: Some("2027-01-01".to_string()),
        day_of_month: Some(3),
    });
    let before = read(&o).unwrap();
    let mut t = before.copy();
    t.status = Status::Canceled;
    t.is_cancelled = true;
    t.is_trashed = true;
    t.notes = None;
    t.recurrence = Some(RecurrenceRule { frequency: 3, interval: 2, recurrence_type: 1, days_of_week: vec![] });
    let w = write_at(Some(o), Some(&before), &t, "NOW");
    assert_eq!(w.props.canceled_at.as_deref(), Some("NOW"));
    assert_eq!(w.props.ext.cancelled_at.as_deref(), Some("NOW"));
    assert_eq!(w.deleted_at.as_deref(), Some("NOW"));
    assert_eq!(w.props.status.as_deref(), Some("canceled"));
    let rule = w.props.recurrence.clone().unwrap();
    assert_eq!(rule.frequency_word.as_deref(), Some("yearly"));
    assert_eq!(rule.type_word.as_deref(), Some("afterCompletion"));
    assert_eq!(rule.end_date.as_deref(), Some("2027-01-01"));
    assert_eq!(rule.day_of_month, Some(3));
    assert_eq!(w.props.ext.recurrence_rule.clone().unwrap().end_date.as_deref(), Some("2027-01-01"));
    let back = read(&w).unwrap();
    assert!(back.is_trashed);
    assert_eq!(back.status, Status::Canceled);
    let mut restored = back.copy();
    restored.is_trashed = false;
    restored.status = Status::Todo;
    restored.is_cancelled = false;
    let w2 = write_at(Some(w), Some(&back), &restored, "LATER");
    assert_eq!(w2.deleted_at, None);
    assert_eq!(w2.props.canceled_at, None);
    assert!(!read(&w2).unwrap().is_trashed);
}

#[test]
fn written_notes_replace_rich_text() {
    let o = task_object("a", None);
    let before = read(&o).unwrap();
    let mut t = before.copy();
    t.notes = Some("Buy milk".to_string());
    let w = write_at(Some(o), Some(&before), &t, "NOW");
    assert_eq!(w.props.ext.description.as_deref(), Some("Buy milk"));
    assert!(same_content(&w.content, &Some(rich_doc("Buy milk"))));
    let mut cleared = t.copy();
    cleared.notes = None;
    let w2 = write_at(Some(w), Some(&t), &cleared, "NOW");
    assert!(same_content(&w2.content, &Some(rich_doc(""))));
    assert_eq!(read(&w2).unwrap().notes, None);
}

#[test]
fn save_refuses_conflicts_and_duplicates() {
    let o = task_object("a", None);
    let before = read(&o).unwrap();
    assert!(matches!(save_step(Some(&before), Some(&o)), SaveStep::Write));
    assert!(matches!(save_step(Some(&before), None), SaveStep::Conflict));
    let mut changed = task_object("a", None);
    changed.title = Some("Elsewhere".to_string());
    assert!(matches!(save_step(Some(&before), Some(&changed)), SaveStep::Conflict));
    assert!(matches!(save_step(None, Some(&o)), SaveStep::Duplicate));
    assert!(matches!(save_step(None, None), SaveStep::Write));
    let mut broken = task_object("a", None);
    broken.id = None;
    let step = save_step(Some(&before), Some(&broken));
    assert!(matches!(&step, SaveStep::ReadFailed(e) if e == "Engine вернул некорректную задачу"));
    assert_eq!(
        SaveStep::Conflict.refusal().as_deref(),
        Some("Задача изменилась в другом приложении. Обновите список.")
    );
    assert_eq!(
        SaveStep::Duplicate.refusal().as_deref(),
        Some("Задача с таким ID уже существует. Обновите список.")
    );
    assert_eq!(SaveStep::Write.refusal(), None);
}

#[test]
fn failed_next_occurrence_is_checked_by_reading_back() {
    let stored = task_object("next", None);
    let next = read(&stored).unwrap();
    let before = new_todo("done".to_string(), "Done");
    assert!(matches!(after_next_failed(Some(&stored), &next, Some(&before)), Rollback::Accepted));
    let mut other = next.copy();
    other.title = "Other".to_string();
    assert!(matches!(after_next_failed(Some(&stored), &other, Some(&before)), Rollback::Fail));
    assert!(matches!(after_next_failed(None, &next, Some(&before)), Rollback::RollBackThenFail));
    assert!(matches!(after_next_failed(None, &next, None), Rollback::Fail));
    let mut broken = task_object("next", None);
    broken.type_id = None;
    assert!(matches!(after_next_failed(Some(&broken), &next, None), Rollback::ReadFailed(_)));
}

#[test]
fn load_keeps_tasks_in_stable_sort_order() {
    let mut note = task_object("note", Some(0));
    note.type_id = Some("com.kosmos.note".to_string());
    let objects = vec![
        task_object("c", Some(2)),
        note,
        task_object("a", Some(1)),
        task_object("b", Some(2)),
        task_object("z", None),
    ];
    let todos = load_tasks(&objects, None).unwrap();
    let ids: Vec<&str> = todos.iter().map(|t| t.id.as_str()).collect();
    assert_eq!(ids, vec!["z", "a", "c", "b"]);
    assert_eq!(load_tasks(&objects, Some(Some(1))).unwrap().len(), 4);
    assert_eq!(
        load_tasks(&objects, Some(Some(2))).err().as_deref(),
        Some("Неизвестная версия справочников Agenda")
    );
    assert!(load_tasks(&objects, Some(None)).is_err());
}

#[test]
fn load_fails_on_first_unreadable_task() {
    let mut bad = task_object("bad", None);
    bad.id = None;
    let mut note = task_object("note", None);
    note.id = None;
    note.type_id = None;
    let objects = vec![note, task_object("a", None), bad];
    assert_eq!(
        load_tasks(&objects, Some(Some(2))).err().as_deref(),
        Some("Engine вернул некорректную задачу")
    );
}
