use agenda::dates::CivilDate;
use agenda::heatmap::heatmap_on;
use agenda::model::{new_todo, Todo};
use agenda::seeds::seed_todos_on;
use agenda::stats::{completion_stats_on, CompletionStats};

fn sunday() -> CivilDate {
    CivilDate { year: 2026, month: 9, day: 20 }
}

fn done(id: &str, at: &str) -> Todo {
    let mut t = new_todo(id.to_string(), id);
    t.is_completed = true;
    t.completed_at = Some(at.to_string());
    t
}

#[test]
fn seeded_statistics() {
    let todos = seed_todos_on(sunday(), "2026-09-20T08:00:00+03:00");
    let s = completion_stats_on(&todos, sunday()).unwrap();
    assert_eq!(s, CompletionStats { total: 3, last7: 3, last30: 3, current_streak: 2, best_streak: 2 });
}

#[test]
fn streak_may_end_yesterday() {
    let todos = vec![done("a", "2026-09-19T10:00:00"), done("b", "2026-09-18"), done("c", "2026-09-10")];
    let s = completion_stats_on(&todos, sunday()).unwrap();
    assert_eq!(s.current_streak, 2);
    assert_eq!(s.best_streak, 2);
    assert_eq!(s.total, 3);
    assert_eq!(s.last7, 2);
    assert_eq!(s.last30, 3);
}

#[test]
fn best_streak_across_months() {
    let todos = vec![
        done("a", "2026-08-30"),
        done("b", "2026-08-31"),
        done("c", "2026-09-01"),
        done("d", "2026-09-02"),
        done("e", "2026-09-02"),
        done("f", "2026-09-15"),
    ];
    let s = completion_stats_on(&todos, sunday()).unwrap();
    assert_eq!(s.best_streak, 4);
    assert_eq!(s.current_streak, 0);
    assert_eq!(s.last7, 1);
    assert_eq!(s.last30, 6);
    assert_eq!(s.total, 6);
}

#[test]
fn no_completions() {
    let todos = vec![new_todo("x".to_string(), "x")];
    let s = completion_stats_on(&todos, sunday()).unwrap();
    assert_eq!(s, CompletionStats { total: 0, last7: 0, last30: 0, current_streak: 0, best_streak: 0 });
}

#[test]
fn unreadable_stamps_do_not_count() {
    let todos = vec![done("a", "2026-13-01"), done("b", "soon"), done("c", "2026-09-20")];
    let s = completion_stats_on(&todos, sunday()).unwrap();
    assert_eq!(s.total, 1);
    assert_eq!(s.current_streak, 1);
}

#[test]
fn heatmap_counts_days_up_to_today() {
    let todos = vec![
        done("a", "2026-09-20T10:00:00"),
        done("b", "2026-09-20"),
        done("c", "2026-09-01T08:00:00"),
        new_todo("d".to_string(), "d"),
    ];
    let h = heatmap_on(&todos, sunday(), 4).unwrap();
    assert_eq!(h.months, vec!["", "сен", "", ""]);
    assert_eq!(h.weeks.len(), 4);
    assert!(h.weeks.iter().all(|w| w.len() == 7));
    let first = &h.weeks[0][0];
    assert_eq!((first.day, first.count), (CivilDate { year: 2026, month: 8, day: 24 }, 0));
    assert_eq!(first.caption, "0 задач 24 августа");
    assert_eq!(h.weeks[1][1].count, 1);
    assert_eq!(h.weeks[1][1].caption, "1 задач 1 сентября");
    assert_eq!(h.weeks[3][6].count, 2);
    assert_eq!(h.weeks[3][6].caption, "2 задач 20 сентября");
}

#[test]
fn heatmap_stops_at_today_and_names_months_with_room() {
    let wednesday = CivilDate { year: 2026, month: 9, day: 16 };
    let h = heatmap_on(&[], wednesday, 6).unwrap();
    assert_eq!(h.weeks[5].len(), 3);
    assert_eq!(h.weeks[5][2].day, wednesday);
    // the grid starts on 2026-08-10; Sep 1 lies in the fourth column
    assert_eq!(h.months, vec!["", "", "", "сен", "", ""]);
    // in the last column a month has no room for its caption
    let h = heatmap_on(&[], CivilDate { year: 2026, month: 9, day: 2 }, 4).unwrap();
    assert_eq!(h.months, vec!["", "", "", ""]);
    // a month starting on a Sunday or a Monday
    let h = heatmap_on(&[], CivilDate { year: 2026, month: 8, day: 5 }, 4).unwrap();
    assert_eq!(h.months, vec!["", "", "авг", ""]);
    let h = heatmap_on(&[], CivilDate { year: 2026, month: 6, day: 10 }, 4).unwrap();
    assert_eq!(h.months, vec!["", "", "июн", ""]);
}
