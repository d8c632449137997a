use health_monitor::db::HealthCheckRow;
use health_monitor::poll::{
    is_success, poll_row, report_due, report_message, FailureLog,
    REPORT_INTERVAL_SECS,
};

fn row(name: &str, status: u16) -> HealthCheckRow {
    HealthCheckRow { name: name.to_string(), status, response_time: 5, created_at: None }
}

#[test]
fn success_statuses() {
    assert!(is_success(200));
    assert!(is_success(204));
    assert!(is_success(299));
    assert!(!is_success(199));
    assert!(!is_success(300));
    assert!(!is_success(404));
    assert!(!is_success(0));
}

#[test]
fn poll_row_answered() {
    let r = poll_row("example".to_string(), Some(503), 1234);
    assert_eq!(r.name, "example");
    assert_eq!(r.status, 503);
    assert_eq!(r.response_time, 1234);
    assert!(r.created_at.is_none());
}

#[test]
fn poll_row_unanswered_has_status_zero() {
    let r = poll_row("example".to_string(), None, 10);
    assert_eq!(r.status, 0);
    assert_eq!(r.response_time, 10);
}

#[test]
fn poll_row_truncates_long_times() {
    let millis: u128 = (1u128 << 64) + 7;
    assert_eq!(poll_row("x".to_string(), Some(200), millis).response_time, 7);
}

#[test]
fn report_interval_is_ten_minutes() {
    assert_eq!(REPORT_INTERVAL_SECS, 600);
}

#[test]
fn report_due_only_after_the_interval() {
    assert!(!report_due(0, 0));
    assert!(!report_due(599, 999_999_999));
    assert!(!report_due(600, 0));
    assert!(report_due(600, 1));
    assert!(report_due(601, 0));
}

#[test]
fn failure_log_keeps_only_failures() {
    let mut log = FailureLog::new();
    log.record(row("a", 200));
    log.record(row("b", 500));
    log.record(row("c", 0));
    log.record(row("d", 201));
    assert_eq!(log.len(), 3);
    let report = log.take_report(601, 0).unwrap();
    let names: Vec<&str> = report.iter().map(|r| r.name.as_str()).collect();
    assert_eq!(names, vec!["b", "c", "d"]);
    assert_eq!(log.len(), 0);
}

#[test]
fn failure_log_waits_for_the_interval() {
    let mut log = FailureLog::new();
    log.record(row("b", 500));
    assert!(log.take_report(10, 0).is_none());
    assert_eq!(log.len(), 1);
}

#[test]
fn failure_log_reports_even_when_empty() {
    let mut log = FailureLog::new();
    assert_eq!(log.take_report(700, 0).unwrap().len(), 0);
}

#[test]
fn report_message_lines() {
    let rows = vec![row("a", 500), row("b", 0)];
    assert_eq!(report_message(&rows), "a - 500\nb - 0");
    assert_eq!(report_message(&Vec::new()), "");
}

#[test]
fn end_round_keeps_failures_until_due() {
    let mut log = FailureLog::new();
    assert!(log.end_round(&vec![row("a", 200), row("b", 500)], 30, 0).is_none());
    assert_eq!(log.len(), 1);
    let report = log.end_round(&vec![row("c", 0), row("d", 200)], 600, 5).unwrap();
    let names: Vec<&str> = report.iter().map(|r| r.name.as_str()).collect();
    assert_eq!(names, vec!["b", "c"]);
    assert_eq!(log.len(), 0);
    let next = log.end_round(&vec![row("e", 404)], 700, 0).unwrap();
    assert_eq!(next.len(), 1);
    assert_eq!(next[0].name, "e");
}
