use agenda::assets::Assets;
use agenda::dates::CivilDate;
use agenda::seeds::{seed_areas, seed_events_on, seed_headings, seed_projects_on, seed_tags, seed_todos_on};
use agenda::source_size::{
    debt_line, failure_header, is_grandfathered, is_ignored_dir, is_source_file, line_count,
    pass_header, size_report, size_verdict, sort_texts, violation_line, SizeVerdict,
};

fn sunday() -> CivilDate {
    CivilDate { year: 2026, month: 9, day: 20 }
}

#[test]
fn seeded_tasks_around_today() {
    let v = seed_todos_on(sunday(), "2026-09-20T08:00:00+03:00");
    assert_eq!(v.len(), 18);
    for (i, t) in v.iter().enumerate() {
        assert_eq!(t.sort_order, i as i32);
        assert_eq!(t.created_at, "2026-09-20T08:00:00+03:00");
    }
    assert_eq!(v[0].notes.as_deref(), Some("Обратить внимание на секцию про ценообразование."));
    assert_eq!(v[4].scheduled_date.as_deref(), Some("2026-09-20"));
    assert_eq!(v[6].scheduled_date.as_deref(), Some("2026-09-19"));
    assert_eq!(v[9].reminder_date.as_deref(), Some("2026-09-23T09:00:00"));
    assert_eq!(v[15].completed_at.as_deref(), Some("2026-09-19T14:00:00"));
    assert_eq!(v[3].tag_ids, vec!["dev-tag-urgent".to_string(), "dev-tag-focus".to_string()]);
    assert_eq!(v[7].checklist.len(), 3);
    assert_eq!(v[11].recurrence.as_ref().map(|r| r.days_of_week.clone()), Some(vec![1, 3, 5]));
    assert!(v[17].is_trashed);
}

#[test]
fn seeded_projects_areas_tags_headings() {
    let p = seed_projects_on(sunday());
    assert_eq!(p.len(), 3);
    assert_eq!(p[0].deadline.as_deref(), Some("2026-09-30"));
    assert_eq!(p[2].status, 1);
    assert_eq!(seed_areas()[1].title, "Личное");
    assert_eq!(seed_tags()[2].color, "green");
    assert_eq!(seed_headings()[1].project_id, "dev-proj-release");
}

#[test]
fn seeded_events_around_today() {
    let e = seed_events_on(sunday());
    assert_eq!(e.len(), 9);
    assert_eq!(e[0].starts_at, "2026-09-20T10:00:00");
    assert_eq!(e[0].ends_at.as_deref(), Some("2026-09-20T10:30:00"));
    assert_eq!(e[8].starts_at, "2026-09-28T10:00:00");
    assert_eq!(e[2].location, None);
}

#[test]
fn line_counts() {
    assert_eq!(line_count(""), 0);
    assert_eq!(line_count("a"), 1);
    assert_eq!(line_count("a\n"), 1);
    assert_eq!(line_count("a\nb"), 2);
    assert_eq!(line_count("\n\n"), 2);
    assert_eq!(line_count("a\r\nb\r\n"), 2);
    let text = "x\n".repeat(301);
    assert_eq!(line_count(&text), 301);
}

#[test]
fn source_files_and_ignored_dirs() {
    assert!(is_source_file("main.rs"));
    assert!(is_source_file("App.vue"));
    assert!(is_source_file("index.tsx"));
    assert!(!is_source_file("README.md"));
    assert!(!is_source_file("rs"));
    assert!(is_ignored_dir("target"));
    assert!(is_ignored_dir("node_modules"));
    assert!(!is_ignored_dir("src"));
    assert!(is_grandfathered("src/model.rs"));
    assert!(!is_grandfathered("src/widgets.rs"));
}

#[test]
fn size_verdicts_and_lines() {
    assert!(size_verdict("src/new.rs", 300) == SizeVerdict::Fits);
    assert!(size_verdict("src/new.rs", 301) == SizeVerdict::Violation);
    assert!(size_verdict("src/app.rs", 1700) == SizeVerdict::Debt);
    assert_eq!(violation_line("src/new.rs", 301), "src/new.rs: 301 lines (max 300)");
    assert_eq!(debt_line("src/app.rs", 1700), "src/app.rs: 1700 lines");
    assert_eq!(failure_header(2), "source size check failed (2 file(s))");
    assert_eq!(pass_header(4), "source size check passed (4 grandfathered file(s) over 300 lines)");
}

#[test]
fn size_report_sorts_each_list() {
    let files = vec![
        ("src/z.rs".to_string(), 400),
        ("src/pages.rs".to_string(), 3200),
        ("src/a.rs".to_string(), 301),
        ("src/ok.rs".to_string(), 12),
        ("src/app.rs".to_string(), 1700),
    ];
    let r = size_report(&files);
    assert_eq!(r.violations, vec!["src/a.rs: 301 lines (max 300)".to_string(), "src/z.rs: 400 lines (max 300)".to_string()]);
    assert_eq!(r.debt, vec!["src/app.rs: 1700 lines".to_string(), "src/pages.rs: 3200 lines".to_string()]);
}

#[test]
fn texts_sort_by_bytes() {
    let v = vec!["б".to_string(), "a".to_string(), "B".to_string(), "a".to_string()];
    assert_eq!(sort_texts(&v), vec!["B".to_string(), "a".to_string(), "a".to_string(), "б".to_string()]);
}

#[test]
fn icons_are_listed() {
    let a = Assets;
    let list = a.list();
    assert_eq!(list.len(), 28);
    assert_eq!(list[0], "icons/analytics-01.svg");
    assert!(a.contains("icons/inbox.svg"));
    assert!(!a.contains("icons/missing.svg"));
}

#[test]
fn seeded_ids_distinct_and_references_resolve() {
    let v = seed_todos_on(sunday(), "2026-09-20T08:00:00+03:00");
    let projects = seed_projects_on(sunday());
    let areas = seed_areas();
    let tags = seed_tags();
    let headings = seed_headings();
    for i in 0..v.len() {
        for j in i + 1..v.len() {
            assert_ne!(v[i].id, v[j].id);
        }
        let t = &v[i];
        if let Some(p) = &t.project_id {
            assert!(projects.iter().any(|x| &x.id == p));
        }
        if let Some(a) = &t.area_id {
            assert!(areas.iter().any(|x| &x.id == a));
        }
        for tag in &t.tag_ids {
            assert!(tags.iter().any(|x| &x.id == tag));
        }
        if let Some(h) = &t.heading_id {
            let heading = headings.iter().find(|x| &x.id == h).unwrap();
            assert_eq!(t.project_id.as_deref(), Some(heading.project_id.as_str()));
        }
    }
}
