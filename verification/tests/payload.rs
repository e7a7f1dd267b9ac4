use echo_sessions::payload::{MessageType, Payload};
use echo_sessions::presence::Presence;

fn payload(from: &str, kind: MessageType, text: &str, timestamp: u64) -> Payload {
    Payload { from: from.to_string(), kind, text: text.to_string(), timestamp }
}

#[test]
fn system_payload_in_indented_form() {
    let p = payload("alice", MessageType::System, "alice has connected.", 1700000000);
    assert_eq!(
        p.to_message(),
        "{\n  \"from\": \"alice\",\n  \"kind\": \"System\",\n  \"text\": \"alice has connected.\",\n  \"timestamp\": 1700000000\n}"
    );
}

#[test]
fn user_and_echo_tags() {
    assert_eq!(
        payload("a", MessageType::User, "b", 0).to_message(),
        "{\n  \"from\": \"a\",\n  \"kind\": \"User\",\n  \"text\": \"b\",\n  \"timestamp\": 0\n}"
    );
    assert_eq!(
        payload("a", MessageType::Echo, "b", 1).to_message(),
        "{\n  \"from\": \"a\",\n  \"kind\": \"Echo\",\n  \"text\": \"b\",\n  \"timestamp\": 1\n}"
    );
}

#[test]
fn tags_by_name() {
    assert_eq!(MessageType::User.tag(), "User");
    assert_eq!(MessageType::System.tag(), "System");
    assert_eq!(MessageType::Echo.tag(), "Echo");
}

#[test]
fn text_is_escaped() {
    let p = payload("al\"ice", MessageType::User, "say \"hi\"\\ \n\t\u{1} é", 5);
    assert_eq!(
        p.to_message(),
        "{\n  \"from\": \"al\\\"ice\",\n  \"kind\": \"User\",\n  \"text\": \"say \\\"hi\\\"\\\\ \\n\\t\\u0001 é\",\n  \"timestamp\": 5\n}"
    );
}

#[test]
fn empty_fields_and_largest_timestamp() {
    assert_eq!(
        payload("", MessageType::User, "", u64::MAX).to_message(),
        "{\n  \"from\": \"\",\n  \"kind\": \"User\",\n  \"text\": \"\",\n  \"timestamp\": 18446744073709551615\n}"
    );
}

#[test]
fn encoded_payload_parses_back_to_its_fields() {
    let p = payload("bo\\b", MessageType::Echo, "line one\nline \"two\"", 1234567890123);
    let parsed: serde_json::Value = serde_json::from_str(&p.to_message()).unwrap();
    let object = parsed.as_object().unwrap();
    assert_eq!(object.len(), 4);
    assert_eq!(object["from"].as_str(), Some("bo\\b"));
    assert_eq!(object["kind"].as_str(), Some("Echo"));
    assert_eq!(object["text"].as_str(), Some("line one\nline \"two\""));
    assert_eq!(object["timestamp"].as_u64(), Some(1234567890123));
}

#[test]
fn presence_in_indented_form() {
    let p = Presence { user_id: "alice".to_string(), timestamp: 17 };
    assert_eq!(p.to_message(), "{\n  \"user_id\": \"alice\",\n  \"timestamp\": 17\n}");
}

#[test]
fn presence_is_escaped_and_parses_back() {
    let p = Presence { user_id: "a\"b".to_string(), timestamp: 0 };
    let text = p.to_message();
    assert_eq!(text, "{\n  \"user_id\": \"a\\\"b\",\n  \"timestamp\": 0\n}");
    let parsed: serde_json::Value = serde_json::from_str(&text).unwrap();
    assert_eq!(parsed["user_id"].as_str(), Some("a\"b"));
    assert_eq!(parsed["timestamp"].as_u64(), Some(0));
}

#[test]
fn tags_are_read_back() {
    assert_eq!(MessageType::from_tag("User"), Some(MessageType::User));
    assert_eq!(MessageType::from_tag("System"), Some(MessageType::System));
    assert_eq!(MessageType::from_tag("Echo"), Some(MessageType::Echo));
    for kind in [MessageType::User, MessageType::System, MessageType::Echo] {
        assert_eq!(MessageType::from_tag(kind.tag()), Some(kind));
    }
}

#[test]
fn unknown_tags_are_refused() {
    assert_eq!(MessageType::from_tag("user"), None);
    assert_eq!(MessageType::from_tag("Admin"), None);
    assert_eq!(MessageType::from_tag(""), None);
    assert_eq!(MessageType::from_tag("System "), None);
}

#[test]
fn announcement_of_a_presence() {
    let p = Presence { user_id: "alice".to_string(), timestamp: 1700000000 };
    let announced = p.announcement();
    assert_eq!(announced.from, "alice");
    assert_eq!(announced.kind, MessageType::System);
    assert_eq!(announced.text, "alice has connected.");
    assert_eq!(announced.timestamp, 1700000000);
}

#[test]
fn indented_form_is_that_of_the_json_library() {
    let p = payload("al\"ice\u{7}", MessageType::System, "tab\there \\ é\u{1f}", 99);
    let mut object = serde_json::Map::new();
    object.insert("from".to_string(), serde_json::Value::from("al\"ice\u{7}"));
    object.insert("kind".to_string(), serde_json::Value::from("System"));
    object.insert("text".to_string(), serde_json::Value::from("tab\there \\ é\u{1f}"));
    object.insert("timestamp".to_string(), serde_json::Value::from(99u64));
    let expected = serde_json::to_string_pretty(&serde_json::Value::Object(object)).unwrap();
    assert_eq!(p.to_message(), expected);
}
