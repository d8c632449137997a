use health_monitor::db::{
    checks_query_params, collect_rows, copy_row, endpoint_params, health_check_params,
    observation_params, stored_row, tables_missing, EndpointPayload, HealthCheckPayload,
    HealthCheckRow,
};

fn row(name: &str, status: u16, response_time: u64) -> HealthCheckRow {
    HealthCheckRow { name: name.to_string(), status, response_time, created_at: None }
}

#[test]
fn health_check_params_are_name_status_time() {
    let params = health_check_params(&row("example.com", 200, 100));
    assert_eq!(params, vec!["example.com".to_string(), "200".to_string(), "100".to_string()]);
}

#[test]
fn checks_query_params_are_name_and_limit() {
    let params = checks_query_params(&"example.com".to_string(), 100);
    assert_eq!(params, vec!["example.com".to_string(), "100".to_string()]);
    assert_eq!(checks_query_params(&"x".to_string(), u32::MAX)[1], u32::MAX.to_string());
}

#[test]
fn endpoint_params_are_url_and_interval() {
    let payload = EndpointPayload { url: "https://example.com".to_string(), interval: 1000 };
    assert_eq!(endpoint_params(&payload), vec!["https://example.com".to_string(), "1000".to_string()]);
}

#[test]
fn observation_params_are_integers() {
    let payload = HealthCheckPayload { endpoint_id: 0, status: 200, response_time: 100 };
    assert_eq!(observation_params(&payload), vec![0u64, 200, 100]);
}

#[test]
fn stored_row_carries_its_time() {
    let r = stored_row("a".to_string(), 503, 7, "2024-01-01 00:00:00".to_string());
    assert_eq!(r.name, "a");
    assert_eq!(r.status, 503);
    assert_eq!(r.response_time, 7);
    assert_eq!(r.created_at.as_deref(), Some("2024-01-01 00:00:00"));
}

#[test]
fn copy_row_keeps_fields() {
    let mut r = row("a", 1, 2);
    r.created_at = Some("t".to_string());
    let c = copy_row(&r);
    assert_eq!(c.name, "a");
    assert_eq!(c.status, 1);
    assert_eq!(c.response_time, 2);
    assert_eq!(c.created_at.as_deref(), Some("t"));
}

#[test]
fn tables_missing_only_when_lookup_failed() {
    assert!(tables_missing(&Err("Query returned no rows".to_string())));
    assert!(!tables_missing(&Ok("health_checks".to_string())));
}

#[test]
fn collect_rows_all_ok() {
    let rows = vec![Ok(row("a", 200, 1)), Ok(row("b", 500, 2))];
    let collected = collect_rows(&rows).unwrap();
    assert_eq!(collected.len(), 2);
    assert_eq!(collected[0].name, "a");
    assert_eq!(collected[1].name, "b");
    assert_eq!(collected[1].status, 500);
}

#[test]
fn collect_rows_first_error_wins() {
    let rows = vec![
        Ok(row("a", 200, 1)),
        Err("first".to_string()),
        Ok(row("b", 200, 1)),
        Err("second".to_string()),
    ];
    assert_eq!(collect_rows(&rows).unwrap_err(), "first");
}

#[test]
fn collect_rows_empty() {
    assert!(collect_rows(&Vec::new()).unwrap().is_empty());
}
