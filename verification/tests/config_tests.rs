use health_monitor::config::{configured_notifiers, endpoint_config, Config, Endpoint, Notifier};

fn endpoint(name: &str, url: &str) -> Endpoint {
    Endpoint { name: name.to_string(), url: url.to_string() }
}

fn sample() -> Config {
    Config {
        endpoints: vec![
            endpoint("example", "https://example.com"),
            endpoint("other", "https://other.org"),
            endpoint("example", "https://second.example.com"),
        ],
        interval: 30,
        database: None,
        notify: None,
    }
}

#[test]
fn endpoint_config_finds_by_name() {
    let found = endpoint_config(&sample(), "other").unwrap();
    assert_eq!(found.name, "other");
    assert_eq!(found.url, "https://other.org");
}

#[test]
fn endpoint_config_takes_first_match() {
    let found = endpoint_config(&sample(), "example").unwrap();
    assert_eq!(found.url, "https://example.com");
}

#[test]
fn endpoint_config_unknown_name() {
    assert!(endpoint_config(&sample(), "missing").is_none());
    assert!(endpoint_config(&sample(), "").is_none());
    assert!(endpoint_config(&sample(), "Example").is_none());
}

#[test]
fn endpoint_config_no_endpoints() {
    let config = Config { endpoints: vec![], interval: 1, database: None, notify: None };
    assert!(endpoint_config(&config, "example").is_none());
}

#[test]
fn configured_notifiers_absent_is_empty() {
    assert!(configured_notifiers(&sample()).is_empty());
}

#[test]
fn configured_notifiers_listed() {
    let mut config = sample();
    config.notify = Some(vec![Notifier::Pushover, Notifier::Pushover]);
    assert_eq!(configured_notifiers(&config), vec![Notifier::Pushover, Notifier::Pushover]);
}
