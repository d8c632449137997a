use health_monitor::api::{default_limit, list_checks, list_endpoints, version_banner, ENDPOINT_NOT_FOUND};
use health_monitor::config::{Config, Endpoint};
use health_monitor::db::HealthCheckRow;

fn config() -> Config {
    Config {
        endpoints: vec![
            Endpoint { name: "example.com".to_string(), url: "https://example.com".to_string() },
            Endpoint { name: "other".to_string(), url: "https://other.org".to_string() },
        ],
        interval: 60,
        database: None,
        notify: None,
    }
}

fn row(status: u16, created_at: Option<&str>) -> HealthCheckRow {
    HealthCheckRow {
        name: "example.com".to_string(),
        status,
        response_time: 100,
        created_at: created_at.map(|c| c.to_string()),
    }
}

#[test]
fn default_limit_is_hundred() {
    assert_eq!(default_limit(), 100);
}

#[test]
fn version_banner_text() {
    assert_eq!(version_banner("health", "0.1.0"), "health v0.1.0");
}

#[test]
fn not_found_text() {
    assert_eq!(ENDPOINT_NOT_FOUND, "Endpoint not found");
}

#[test]
fn list_endpoints_all_in_order() {
    let r = list_endpoints(&config());
    assert_eq!(r.endpoints.len(), 2);
    assert_eq!(r.endpoints[0].name, "example.com");
    assert_eq!(r.endpoints[1].url, "https://other.org");
}

#[test]
fn list_checks_found() {
    let checks = Ok(vec![row(200, Some("2024-05-01 10:00:00")), row(500, None)]);
    let r = list_checks(&config(), "example.com", checks).unwrap();
    assert_eq!(r.name, "example.com");
    assert_eq!(r.url, "https://example.com");
    assert_eq!(r.interval, 60);
    assert_eq!(r.checks.len(), 2);
    assert_eq!(r.checks[0].status, 200);
    assert_eq!(r.checks[0].response_time, 100);
    assert_eq!(r.checks[0].created_at, "2024-05-01 10:00:00");
    assert_eq!(r.checks[1].status, 500);
    assert_eq!(r.checks[1].created_at, "");
}

#[test]
fn list_checks_unknown_endpoint() {
    assert!(list_checks(&config(), "missing", Ok(vec![row(200, None)])).is_none());
}

#[test]
fn list_checks_read_error() {
    assert!(list_checks(&config(), "example.com", Err("no such table".to_string())).is_none());
}
