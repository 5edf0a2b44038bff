use magelogs::engine::ChangeKind;
use magelogs::engine::MageLog;
use magelogs::engine::ReadPlan;
use magelogs::filter::MageLogIssues;
use magelogs::offsets::OffsetTable;
use magelogs::render::ColorTag;

fn seeded_engine() -> MageLog {
    let mut log = MageLog::new();
    log.set_path(String::from("/var/log/"));
    log.set_error_issue(true);
    log.calculate_positions(&vec![100, 200, 300]);
    log
}

#[test]
fn builders_record_flags_and_path() {
    let mut log = MageLog::new();
    assert!(!log.is_all);
    assert!(log.issues.is_empty());
    log.set_path(String::from("/var/log/"));
    assert_eq!(log.path, "/var/log/");
    log.set_is_all(true);
    assert!(log.is_all);
    assert_eq!(log.issues, vec![MageLogIssues::ERROR]);
    log.set_critical_issue(true);
    log.set_error_issue(true);
    log.set_warning_issue(true);
    assert_eq!(
        log.issues,
        vec![
            MageLogIssues::ERROR,
            MageLogIssues::CRITICAL,
            MageLogIssues::ERROR,
            MageLogIssues::WARNING
        ]
    );
    log.set_is_all(false);
    log.set_critical_issue(false);
    log.set_error_issue(false);
    log.set_warning_issue(false);
    assert_eq!(log.issues.len(), 4);
}

#[test]
fn calculate_positions_tracks_the_three_fixed_files() {
    let log = seeded_engine();
    assert_eq!(
        log.files,
        vec!["/var/log/exception.log", "/var/log/debug.log", "/var/log/system.log"]
    );
    assert_eq!(log.positions.get("/var/log/exception.log"), Some(100));
    assert_eq!(log.positions.get("/var/log/debug.log"), Some(200));
    assert_eq!(log.positions.get("/var/log/system.log"), Some(300));
}

#[test]
fn tracked_paths_join_base_and_names() {
    let mut log = MageLog::new();
    log.set_path(String::from("/tmp/"));
    assert_eq!(
        log.tracked_paths(),
        vec!["/tmp/exception.log", "/tmp/debug.log", "/tmp/system.log"]
    );
}

#[test]
fn growth_is_read_from_the_stored_offset() {
    let mut log = seeded_engine();
    let plan = log.handle_event(ChangeKind::Modified, "/var/log/system.log", 450);
    assert_eq!(plan, ReadPlan::Read { from: 300, to: 450 });
    assert_eq!(log.positions.get("/var/log/system.log"), Some(450));
}

#[test]
fn offsets_advance_event_after_event() {
    let mut log = seeded_engine();
    let p1 = log.handle_event(ChangeKind::Modified, "/var/log/debug.log", 250);
    let p2 = log.handle_event(ChangeKind::Modified, "/var/log/debug.log", 260);
    assert_eq!(p1, ReadPlan::Read { from: 200, to: 250 });
    assert_eq!(p2, ReadPlan::Read { from: 250, to: 260 });
    assert_eq!(log.positions.get("/var/log/debug.log"), Some(260));
}

#[test]
fn noop_event_changes_nothing_and_reads_nothing() {
    let mut log = seeded_engine();
    let plan = log.handle_event(ChangeKind::Modified, "/var/log/system.log", 300);
    assert_eq!(plan, ReadPlan::Skip);
    assert_eq!(log.positions.get("/var/log/system.log"), Some(300));
}

#[test]
fn shrunken_file_is_skipped_and_offset_kept() {
    let mut log = seeded_engine();
    let plan = log.handle_event(ChangeKind::Modified, "/var/log/system.log", 10);
    assert_eq!(plan, ReadPlan::Skip);
    assert_eq!(log.positions.get("/var/log/system.log"), Some(300));
    let plan = log.handle_event(ChangeKind::Modified, "/var/log/system.log", 310);
    assert_eq!(plan, ReadPlan::Read { from: 300, to: 310 });
}

#[test]
fn non_modification_events_are_discarded() {
    let mut log = seeded_engine();
    let plan = log.handle_event(ChangeKind::Other, "/var/log/system.log", 999);
    assert_eq!(plan, ReadPlan::Skip);
    assert_eq!(log.positions.get("/var/log/system.log"), Some(300));
}

#[test]
fn unknown_path_is_reported_as_not_tracked() {
    let mut log = seeded_engine();
    let plan = log.handle_event(ChangeKind::Modified, "/var/log/other.log", 50);
    assert_eq!(plan, ReadPlan::NotTracked);
}

#[test]
fn process_delta_filters_formats_and_keeps_order() {
    let mut log = MageLog::new();
    log.set_path(String::from("/var/log/"));
    log.set_error_issue(true);
    log.set_warning_issue(true);
    log.calculate_positions(&vec![0, 0, 0]);
    let out = log.process_delta(
        "/var/log/system.log",
        "main.ERROR first\nplain line\nmain.WARNING second\nmain.ERROR third\n",
    );
    assert_eq!(out.len(), 3);
    assert_eq!(out[0].body, "main.ERROR first");
    assert_eq!(out[0].color, ColorTag::Red);
    assert_eq!(out[0].filename, "system.log");
    assert_eq!(out[1].body, "main.WARNING second");
    assert_eq!(out[1].color, ColorTag::Yellow);
    assert_eq!(out[2].body, "main.ERROR third");
    assert_eq!(out[2].color, ColorTag::Red);
}

#[test]
fn process_delta_emits_nothing_for_unmatched_lines() {
    let mut log = MageLog::new();
    log.set_path(String::from("/var/log/"));
    log.set_is_all(true);
    log.calculate_positions(&vec![0, 0, 0]);
    let out = log.process_delta("/var/log/debug.log", "nothing here\nstill nothing\n");
    assert!(out.is_empty());
}

#[test]
fn display_text_joins_filename_and_body() {
    let mut log = MageLog::new();
    log.set_path(String::from(""));
    log.set_error_issue(true);
    log.calculate_positions(&vec![0, 0, 0]);
    let out = log.process_delta("exception.log", "main.ERROR boom");
    assert_eq!(out.len(), 1);
    assert_eq!(out[0].display_text(), "exception.log --> main.ERROR boom");
}

#[test]
fn offset_table_get_set_initialize() {
    let mut t = OffsetTable::new();
    assert_eq!(t.get("a.log"), None);
    assert!(!t.set_offset("a.log", 5));
    assert_eq!(t.get("a.log"), None);
    t.initialize("a.log", 7);
    assert_eq!(t.get("a.log"), Some(7));
    assert!(t.set_offset("a.log", 9));
    assert_eq!(t.get("a.log"), Some(9));
    t.initialize("a.log", 1);
    assert_eq!(t.get("a.log"), Some(1));
    t.initialize("b.log", 2);
    assert_eq!(t.get("a.log"), Some(1));
    assert_eq!(t.get("b.log"), Some(2));
}

#[test]
fn rendering_wraps_the_body_in_color_escapes() {
    let mut log = MageLog::new();
    log.set_path(String::from("/var/log/"));
    log.set_error_issue(true);
    log.set_warning_issue(true);
    log.calculate_positions(&vec![0, 0, 0]);
    let out = log.process_delta(
        "/var/log/system.log",
        "main.ERROR boom\nmain.WARNING low\n",
    );
    assert_eq!(out.len(), 2);

    colored::control::set_override(true);
    assert_eq!(
        out[0].rendered(),
        "system.log --> \x1b[31mmain.ERROR boom\x1b[0m"
    );
    assert_eq!(
        out[1].rendered(),
        "system.log --> \x1b[33mmain.WARNING low\x1b[0m"
    );

    colored::control::set_override(false);
    assert_eq!(out[0].rendered(), "system.log --> main.ERROR boom");
    assert_eq!(out[1].rendered(), "system.log --> main.WARNING low");
    colored::control::unset_override();
}
