use crabcut::event::{ClickEvent, EventPublisher};

fn sample_event() -> ClickEvent {
    ClickEvent {
        short_url: String::from("abc123"),
        ip_address: Some(String::from("192.168.1.9")),
        user_agent: Some(String::from("Mozilla/5.0")),
        referer: None,
    }
}

#[test]
fn event_serializes_with_all_fields_in_order() {
    let json = sample_event().to_json();
    assert_eq!(
        json,
        "{\"short_url\":\"abc123\",\"ip_address\":\"192.168.1.9\",\
         \"user_agent\":\"Mozilla/5.0\",\"referer\":null}"
    );
}

#[test]
fn absent_metadata_serializes_as_null() {
    let event = ClickEvent {
        short_url: String::from("x"),
        ip_address: None,
        user_agent: None,
        referer: None,
    };
    assert_eq!(
        event.to_json(),
        "{\"short_url\":\"x\",\"ip_address\":null,\"user_agent\":null,\"referer\":null}"
    );
}

#[test]
fn quotes_and_backslashes_are_escaped() {
    let event = ClickEvent {
        short_url: String::from("x"),
        ip_address: None,
        user_agent: Some(String::from("agent \"quoted\" \\slash")),
        referer: None,
    };
    assert_eq!(
        event.to_json(),
        "{\"short_url\":\"x\",\"ip_address\":null,\
         \"user_agent\":\"agent \\\"quoted\\\" \\\\slash\",\"referer\":null}"
    );
}

#[test]
fn control_characters_are_escaped() {
    let event = ClickEvent {
        short_url: String::from("x"),
        ip_address: None,
        user_agent: Some(String::from("a\nb\tc\r\u{8}\u{c}\u{1}\u{1f}")),
        referer: None,
    };
    assert_eq!(
        event.to_json(),
        "{\"short_url\":\"x\",\"ip_address\":null,\
         \"user_agent\":\"a\\nb\\tc\\r\\b\\f\\u0001\\u001f\",\"referer\":null}"
    );
}

#[test]
fn serialized_event_parses_back_with_a_real_json_parser() {
    let event = ClickEvent {
        short_url: String::from("abc123"),
        ip_address: Some(String::from("10.0.0.1")),
        user_agent: Some(String::from("curl/8.0 \"test\"\nline")),
        referer: Some(String::from("https://example.com/?q=a&b=\\c")),
    };
    let parsed: serde_json::Value = serde_json::from_str(&event.to_json()).unwrap();
    assert_eq!(parsed["short_url"].as_str(), Some("abc123"));
    assert_eq!(parsed["ip_address"].as_str(), Some("10.0.0.1"));
    assert_eq!(parsed["user_agent"].as_str(), Some("curl/8.0 \"test\"\nline"));
    assert_eq!(parsed["referer"].as_str(), Some("https://example.com/?q=a&b=\\c"));
}

#[test]
fn publisher_records_key_and_payload() {
    let mut publisher = EventPublisher::new();
    assert_eq!(publisher.count(), 0);
    let event = sample_event();
    let expected = event.to_json();
    publisher.publish(&event);
    assert_eq!(publisher.count(), 1);
    assert_eq!(publisher.published[0].0, "abc123");
    assert_eq!(publisher.published[0].1, expected);
}
