use health_monitor::pushover::{pushover_fields, PUSHOVER_MESSAGES_URL};

#[test]
fn pushover_fields_are_token_user_message() {
    let fields = pushover_fields("tok", "usr", "a&b - 0\nc = d");
    assert_eq!(
        fields,
        vec![
            ("token".to_string(), "tok".to_string()),
            ("user".to_string(), "usr".to_string()),
            ("message".to_string(), "a&b - 0\nc = d".to_string()),
        ]
    );
}

#[test]
fn pushover_url() {
    assert_eq!(PUSHOVER_MESSAGES_URL, "https://api.pushover.net/1/messages.json");
}
