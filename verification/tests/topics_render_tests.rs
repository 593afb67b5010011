use datacenter::num::parse_decimal;
use datacenter::render::{announce_payload, not_found_payload, push_escaped, push_record_json};
use datacenter::store::TelemetryRecord;
use datacenter::topics::{
    discovery_topic, is_session_topic, response_topic, session_topic, shared_topic, split_topic,
};

fn bytes(s: &str) -> Vec<u8> {
    s.as_bytes().to_vec()
}

fn escaped(s: &str) -> String {
    let mut out: Vec<u8> = Vec::new();
    push_escaped(&mut out, &bytes(s));
    String::from_utf8(out).unwrap()
}

#[test]
fn topic_names_follow_the_scheme() {
    assert_eq!(shared_topic(), bytes("rust/topic"));
    assert_eq!(session_topic(&bytes("A1")), bytes("rust/topic/A1"));
    assert_eq!(discovery_topic(), bytes("rust/discovery"));
    assert_eq!(
        response_topic(&bytes("A1"), "uuid", Some(&bytes("U"))),
        bytes("rust/response/A1/uuid/U")
    );
    assert_eq!(
        response_topic(&bytes("A1"), "all", None),
        bytes("rust/response/A1/all")
    );
    assert_eq!(
        split_topic(&bytes("rust/response/A1/all"), 2, 17),
        bytes("rust/response/A1/all/split/2/17")
    );
}

#[test]
fn session_topic_recognition() {
    assert!(is_session_topic(&bytes("rust/topic/A1"), &bytes("A1")));
    assert!(!is_session_topic(&bytes("rust/topic"), &bytes("A1")));
    assert!(!is_session_topic(&bytes("rust/topic/B2"), &bytes("A1")));
}

#[test]
fn escaping_handles_quotes_backslashes_and_controls() {
    assert_eq!(escaped("plain"), "plain");
    assert_eq!(escaped("a\"b"), "a\\\"b");
    assert_eq!(escaped("a\\b"), "a\\\\b");
    assert_eq!(escaped("a\nb"), "a\\u000ab");
    assert_eq!(escaped("\u{1f}"), "\\u001f");
    assert_eq!(escaped("héllo"), "héllo");
}

#[test]
fn record_json_is_exact() {
    let rec = TelemetryRecord {
        uuid: bytes("U\"1"),
        color: bytes("red"),
        timestamp: bytes("T1"),
        energy_cost: parse_decimal(&bytes("0.12")).unwrap(),
        energy_consume: parse_decimal(&bytes("3.4")).unwrap(),
        temperature: parse_decimal(&bytes("21.5")).unwrap(),
        humidity: parse_decimal(&bytes("40.0")).unwrap(),
    };
    let mut out: Vec<u8> = Vec::new();
    push_record_json(&mut out, &rec);
    let text = String::from_utf8(out).unwrap();
    assert_eq!(
        text,
        r#"{"color":"red","energy_consume":3.4,"energy_cost":0.12,"sensor_data":{"humidity":40,"temperature":21.5},"timestamp":"T1","uuid":"U\"1"}"#
    );
    let parsed: serde_json::Value = serde_json::from_str(&text).unwrap();
    assert_eq!(parsed["uuid"], "U\"1");
    assert_eq!(parsed["sensor_data"]["temperature"], 21.5);
}

#[test]
fn not_found_payload_is_exact() {
    assert_eq!(
        String::from_utf8(not_found_payload(&bytes("X"))).unwrap(),
        r#"{"found":false,"message":"No data found for this UUID","uuid":"X"}"#
    );
}

#[test]
fn announce_payload_is_exact() {
    assert_eq!(
        String::from_utf8(announce_payload(&bytes("A1"))).unwrap(),
        r#"{"client_id":"A1","type":"client_connect"}"#
    );
}
