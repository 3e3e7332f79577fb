use breeze_shell::incident_log::{IncidentLog, MAX_INCIDENT_DETAIL_CHARS, MAX_INCIDENT_RECORDS};

#[test]
fn incident_history_is_bounded_and_keeps_the_newest_records() {
    let mut log = IncidentLog::new();
    for index in 0..MAX_INCIDENT_RECORDS + 4 {
        log.record("test", &format!("record {index}"), index as u64);
    }
    assert_eq!(log.records.len(), MAX_INCIDENT_RECORDS);
    assert_eq!(log.records.front().unwrap().detail, "record 4");
    assert_eq!(log.records.back().unwrap().detail, format!("record {}", MAX_INCIDENT_RECORDS + 3));
}

#[test]
fn incident_detail_has_a_hard_character_limit() {
    let mut log = IncidentLog::new();
    log.record("test", &"x".repeat(MAX_INCIDENT_DETAIL_CHARS + 20), 0);
    assert_eq!(log.records.front().unwrap().detail.chars().count(), MAX_INCIDENT_DETAIL_CHARS);
}

#[test]
fn panel_labels_are_single_line_without_losing_report_detail() {
    let mut log = IncidentLog::new();
    log.record("console", "first line\r\nsecond   line", 0);

    assert!(log.recent_labels(1)[0].ends_with("first line second line"));
    assert!(log.report().contains("first line\r\nsecond   line"));
}

#[test]
fn labels_and_report_lines_have_fixed_columns() {
    let mut log = IncidentLog::new();
    log.record("net", "  fetched \t page ", 12_345);
    assert_eq!(log.recent_labels(5), vec!["    12.3 ms  net        fetched page".to_string()]);
    let report = log.report();
    assert!(report.starts_with("Counters: navigations=0, presentations=0, runtime_updates=0, fetch_batches=0, cookie_mutations=0, storage_mutations=0\nTimeline (oldest to newest):\r\n"));
    assert!(report.ends_with("      12.3 ms | net          |   fetched \t page \n"));
}

#[test]
fn accepted_pointer_presses_are_recorded_but_moves_are_not() {
    let mut log = IncidentLog::new();
    log.record_pointer(true, true, "Move", "Primary", 1, 10);
    log.record_pointer(false, false, "Down", "Primary", 2, 20);
    assert_eq!(log.record_count(), 0);
    log.record_pointer(true, false, "Down", "Primary", 3, 30);
    assert_eq!(log.record_count(), 1);
    assert!(log.report().contains("pointer Down/Primary sequence 3"));
}
