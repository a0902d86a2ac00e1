use agenda::engine::{latest_references, StoredObject,
    engine_lock_compatible, read_frequency, read_priority, read_recurrence_type, read_status, write_frequency,
    write_priority, write_recurrence_type, write_status,
};
use agenda::model::{new_todo, Status};

#[test]
fn engine_statuses_read_as_local_ones() {
    assert_eq!(read_status(Some("inProgress"), None, false), "started");
    assert_eq!(read_status(Some("todo"), Some("in_progress"), false), "started");
    assert_eq!(read_status(Some("inbox"), Some("deferred"), false), "deferred");
    assert_eq!(read_status(Some("todo"), None, true), "deferred");
    assert_eq!(read_status(Some("todo"), Some("todo"), true), "deferred");
    assert_eq!(read_status(Some("done"), Some("deferred"), true), "done");
    assert_eq!(read_status(None, Some("cancelled"), false), "canceled");
    assert_eq!(read_status(Some("duplicate"), None, false), "canceled");
    assert_eq!(read_status(Some("completed"), None, false), "done");
    assert_eq!(read_status(Some("mystery"), None, false), "inbox");
    assert_eq!(read_status(None, None, true), "inbox");
}

#[test]
fn local_statuses_written_for_the_engine() {
    let mut t = new_todo("t".to_string(), "T");
    assert_eq!(write_status(&t), "inbox");
    t.status = Status::Deferred;
    assert_eq!(write_status(&t), "todo");
    t.status = Status::Started;
    assert_eq!(write_status(&t), "inProgress");
    t.is_completed = true;
    assert_eq!(write_status(&t), "done");
    t.is_cancelled = true;
    assert_eq!(write_status(&t), "canceled");
}

#[test]
fn written_status_reads_back() {
    for status in [Status::Inbox, Status::Todo, Status::Started, Status::Deferred, Status::Done, Status::Canceled] {
        let mut t = new_todo("t".to_string(), "T");
        t.status = status;
        let word = match status {
            Status::Inbox => "inbox",
            Status::Todo => "todo",
            Status::Started => "started",
            Status::Deferred => "deferred",
            Status::Done => "done",
            Status::Canceled => "canceled",
        };
        assert_eq!(read_status(Some(write_status(&t)), Some(word), status == Status::Deferred), word);
    }
}

#[test]
fn priorities_both_ways() {
    assert_eq!(write_priority(0), "none");
    assert_eq!(write_priority(2), "medium");
    assert_eq!(write_priority(9), "high");
    assert_eq!(read_priority(Some(5), Some(1)), 3);
    assert_eq!(read_priority(None, Some(2)), 2);
    assert_eq!(read_priority(None, None), 0);
}

#[test]
fn frequencies_and_types_both_ways() {
    for f in 0..4u8 {
        assert_eq!(read_frequency(write_frequency(f)), Ok(f));
    }
    assert_eq!(write_frequency(7), "yearly");
    assert_eq!(read_frequency("hourly"), Err("Некорректная периодичность задачи".to_string()));
    assert_eq!(write_recurrence_type(1), "afterCompletion");
    assert_eq!(write_recurrence_type(0), "fixed");
    assert_eq!(read_recurrence_type("afterCompletion"), 1);
    assert_eq!(read_recurrence_type("fixed"), 0);
}

#[test]
fn engine_discovery_is_checked() {
    let token = "0123456789abcdefABCDEF0123456789abcdefABCDEF0123456789abcdef0123";
    assert_eq!(token.len(), 64);
    assert!(engine_lock_compatible(1, 1, 8080, token));
    assert!(!engine_lock_compatible(2, 1, 8080, token));
    assert!(!engine_lock_compatible(1, 2, 8080, token));
    assert!(!engine_lock_compatible(1, 1, 0, token));
    assert!(!engine_lock_compatible(1, 1, 8080, &token[..63]));
    let bad = format!("{}g", &token[..63]);
    assert!(!engine_lock_compatible(1, 1, 8080, &bad));
}

#[test]
fn latest_references_takes_the_newest_live_object() {
    let o = |deleted: bool, at: &str| StoredObject { deleted, updated_at: at.to_string() };
    let objs = vec![
        o(false, "2026-09-01T10:00:00Z"),
        o(true, "2026-09-30T10:00:00Z"),
        o(false, "2026-09-10T10:00:00Z"),
        o(false, "2026-09-05T10:00:00Z"),
    ];
    assert_eq!(latest_references(&objs), Some(2));
    // the last of equally new objects
    let objs = vec![o(false, "b"), o(false, "b"), o(false, "a")];
    assert_eq!(latest_references(&objs), Some(1));
    // an object without a stamp counts as the oldest
    let objs = vec![o(false, ""), o(false, "a")];
    assert_eq!(latest_references(&objs), Some(1));
    assert_eq!(latest_references(&vec![o(true, "z")]), None);
    assert_eq!(latest_references(&vec![]), None);
}
