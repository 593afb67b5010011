use datacenter::dispatch::{
    dispatch_message, process_json, respond_broker, router, RouterOutcome, TcpOutcome,
};
use datacenter::inbound::parse_message;
use datacenter::store::RecordStore;

fn bytes(s: &str) -> Vec<u8> {
    s.as_bytes().to_vec()
}

fn msg(json: &str) -> datacenter::inbound::InboundMessage {
    parse_message(&bytes(json)).unwrap()
}

const CREATE_ONE: &str = r#"{"type":"data","data":[{"uuid":"U","color":"red","timestamp":"T1","energy_cost":0.12,"energy_consume":3.4,"sensor_data":{"temperature":21.5,"humidity":40.0}}]}"#;

#[test]
fn uuid_lookup_on_empty_store_reports_not_found() {
    let mut store = RecordStore::new();
    let outcome = dispatch_message(&mut store, &msg(r#"{"type":"uuid","data":"missing-id"}"#));
    match outcome {
        TcpOutcome::Reply(p) => {
            let text = String::from_utf8(p).unwrap();
            assert_eq!(
                text,
                r#"{"found":false,"message":"No data found for this UUID","uuid":"missing-id"}"#
            );
        }
        _ => panic!("expected a reply"),
    }
}

#[test]
fn create_then_uuid_lookup_round_trips() {
    let mut store = RecordStore::new();
    match dispatch_message(&mut store, &msg(CREATE_ONE)) {
        TcpOutcome::Created(created) => assert!(created),
        _ => panic!("expected a create outcome"),
    }
    assert_eq!(store.records.len(), 1);
    match dispatch_message(&mut store, &msg(r#"{"type":"uuid","data":"U"}"#)) {
        TcpOutcome::Reply(p) => {
            let text = String::from_utf8(p).unwrap();
            assert_eq!(
                text,
                r#"{"color":"red","energy_consume":3.4,"energy_cost":0.12,"sensor_data":{"humidity":40,"temperature":21.5},"timestamp":"T1","uuid":"U"}"#
            );
        }
        _ => panic!("expected a reply"),
    }
}

#[test]
fn create_twice_reports_no_new_creation() {
    let mut store = RecordStore::new();
    match dispatch_message(&mut store, &msg(CREATE_ONE)) {
        TcpOutcome::Created(created) => assert!(created),
        _ => panic!("expected a create outcome"),
    }
    match dispatch_message(&mut store, &msg(CREATE_ONE)) {
        TcpOutcome::Created(created) => assert!(!created),
        _ => panic!("expected a create outcome"),
    }
    assert_eq!(store.records.len(), 1);
}

#[test]
fn empty_data_array_fails_without_store_interaction() {
    let mut store = RecordStore::new();
    let outcome = dispatch_message(&mut store, &msg(r#"{"type":"data","data":[]}"#));
    assert!(matches!(outcome, TcpOutcome::Silence));
    assert_eq!(store.records.len(), 0);
}

#[test]
fn absent_data_array_fails_without_store_interaction() {
    let mut store = RecordStore::new();
    let outcome = dispatch_message(&mut store, &msg(r#"{"type":"data"}"#));
    assert!(matches!(outcome, TcpOutcome::Silence));
    assert_eq!(store.records.len(), 0);
}

#[test]
fn incomplete_record_fails_validation() {
    let mut store = RecordStore::new();
    let outcome = dispatch_message(
        &mut store,
        &msg(r#"{"type":"data","data":[{"uuid":"U","color":"red"}]}"#),
    );
    assert!(matches!(outcome, TcpOutcome::Silence));
    assert_eq!(store.records.len(), 0);
}

#[test]
fn unknown_type_is_dropped() {
    let mut store = RecordStore::new();
    let outcome = dispatch_message(&mut store, &msg(r#"{"type":"message","content":"hi"}"#));
    assert!(matches!(outcome, TcpOutcome::Silence));
}

#[test]
fn missing_type_is_dropped() {
    let mut store = RecordStore::new();
    let outcome = dispatch_message(&mut store, &msg(r#"{"data":"U"}"#));
    assert!(matches!(outcome, TcpOutcome::Silence));
}

#[test]
fn missing_required_field_is_validation_error() {
    let mut store = RecordStore::new();
    let outcome = dispatch_message(&mut store, &msg(r#"{"type":"uuid"}"#));
    assert!(matches!(outcome, TcpOutcome::Silence));
    let outcome = dispatch_message(&mut store, &msg(r#"{"type":"time_range","start":"a"}"#));
    assert!(matches!(outcome, TcpOutcome::Silence));
}

#[test]
fn numeric_queries_match_exactly() {
    let mut store = RecordStore::new();
    dispatch_message(&mut store, &msg(CREATE_ONE));
    match dispatch_message(&mut store, &msg(r#"{"type":"energy_cost","data":0.12}"#)) {
        TcpOutcome::Reply(p) => {
            let text = String::from_utf8(p).unwrap();
            assert!(text.starts_with('['));
            assert!(text.contains(r#""uuid":"U""#));
        }
        _ => panic!("expected a reply"),
    }
    match dispatch_message(&mut store, &msg(r#"{"type":"energy_cost","data":0.13}"#)) {
        TcpOutcome::Reply(p) => assert_eq!(String::from_utf8(p).unwrap(), "[]"),
        _ => panic!("expected a reply"),
    }
}

#[test]
fn humidity_written_as_forty_point_zero_matches_integer_forty() {
    let mut store = RecordStore::new();
    dispatch_message(&mut store, &msg(CREATE_ONE));
    let query = r#"{"type":"temperature_humidity","temperature":99,"humidity":40}"#;
    match dispatch_message(&mut store, &msg(query)) {
        TcpOutcome::Reply(p) => {
            let text = String::from_utf8(p).unwrap();
            assert!(text.contains(r#""uuid":"U""#));
        }
        _ => panic!("expected a reply"),
    }
}

#[test]
fn timestamp_query_returns_pair() {
    let mut store = RecordStore::new();
    dispatch_message(&mut store, &msg(CREATE_ONE));
    match dispatch_message(&mut store, &msg(r#"{"type":"timestamp","data":"T1"}"#)) {
        TcpOutcome::Reply(p) => {
            assert_eq!(
                String::from_utf8(p).unwrap(),
                r#"{"humidity":40,"temperature":21.5}"#
            );
        }
        _ => panic!("expected a reply"),
    }
    match dispatch_message(&mut store, &msg(r#"{"type":"timestamp","data":"T9"}"#)) {
        TcpOutcome::Reply(p) => {
            assert_eq!(String::from_utf8(p).unwrap(), r#"{"found":false}"#);
        }
        _ => panic!("expected a reply"),
    }
}

#[test]
fn color_and_range_and_all_queries_reply_with_arrays() {
    let mut store = RecordStore::new();
    dispatch_message(&mut store, &msg(CREATE_ONE));
    match dispatch_message(&mut store, &msg(r#"{"type":"color","data":"red"}"#)) {
        TcpOutcome::Reply(p) => {
            let text = String::from_utf8(p).unwrap();
            assert!(text.starts_with('[') && text.ends_with(']'));
            assert!(text.contains(r#""color":"red""#));
        }
        _ => panic!("expected a reply"),
    }
    match dispatch_message(&mut store, &msg(r#"{"type":"color","data":"blue"}"#)) {
        TcpOutcome::Reply(p) => assert_eq!(String::from_utf8(p).unwrap(), "[]"),
        _ => panic!("expected a reply"),
    }
    match dispatch_message(&mut store, &msg(r#"{"type":"time_range","start":"T0","end":"T2"}"#)) {
        TcpOutcome::Reply(p) => {
            assert!(String::from_utf8(p).unwrap().contains(r#""timestamp":"T1""#));
        }
        _ => panic!("expected a reply"),
    }
    match dispatch_message(&mut store, &msg(r#"{"type":"all"}"#)) {
        TcpOutcome::Reply(p) => {
            assert!(String::from_utf8(p).unwrap().contains(r#""uuid":"U""#));
        }
        _ => panic!("expected a reply"),
    }
}

#[test]
fn router_handles_each_command() {
    let mut store = RecordStore::new();
    assert!(matches!(
        router(&bytes("exit"), &mut store),
        RouterOutcome::Exit
    ));
    assert!(matches!(
        router(&bytes("status"), &mut store),
        RouterOutcome::StatusOk
    ));
    assert!(matches!(
        router(&bytes("bogus"), &mut store),
        RouterOutcome::Invalid
    ));
    dispatch_message(&mut store, &msg(CREATE_ONE));
    assert_eq!(store.records.len(), 1);
    match router(&bytes("reset"), &mut store) {
        RouterOutcome::ResetDone(layout) => {
            assert_eq!(layout.primary_count, 1);
            assert_eq!(layout.secondary_count, 2);
        }
        _ => panic!("expected a reset"),
    }
    assert_eq!(store.records.len(), 0);
}

#[test]
fn command_messages_reach_the_router() {
    let mut store = RecordStore::new();
    let outcome = dispatch_message(&mut store, &msg(r#"{"type":"command","command":"exit"}"#));
    assert!(matches!(outcome, TcpOutcome::Admin(RouterOutcome::Exit)));
    let outcome = dispatch_message(&mut store, &msg(r#"{"type":"command","command":"bogus"}"#));
    assert!(matches!(outcome, TcpOutcome::Silence));
}

#[test]
fn command_and_data_are_tcp_only() {
    let store = RecordStore::new();
    let sid = bytes("A");
    let envelopes = respond_broker(&store, &msg(r#"{"type":"command","command":"exit"}"#), &sid, false, 8192);
    assert_eq!(envelopes.len(), 0);
    let envelopes = respond_broker(&store, &msg(CREATE_ONE), &sid, false, 8192);
    assert_eq!(envelopes.len(), 0);
}

#[test]
fn broker_message_for_other_instance_on_shared_topic_is_discarded() {
    let store = RecordStore::new();
    let sid = bytes("A");
    let m = msg(r#"{"type":"uuid","data":"U","client_id":"B"}"#);
    let envelopes = respond_broker(&store, &m, &sid, false, 8192);
    assert_eq!(envelopes.len(), 0);
}

#[test]
fn broker_message_on_own_session_topic_overrides_target() {
    let store = RecordStore::new();
    let sid = bytes("A");
    let m = msg(r#"{"type":"uuid","data":"U","client_id":"B"}"#);
    let envelopes = respond_broker(&store, &m, &sid, true, 8192);
    assert_eq!(envelopes.len(), 1);
    assert_eq!(
        String::from_utf8(envelopes[0].topic.clone()).unwrap(),
        "rust/response/A/uuid/U"
    );
}

#[test]
fn broker_message_for_this_instance_is_answered() {
    let store = RecordStore::new();
    let sid = bytes("A");
    let m = msg(r#"{"type":"uuid","data":"U","client_id":"A"}"#);
    let envelopes = respond_broker(&store, &m, &sid, false, 8192);
    assert_eq!(envelopes.len(), 1);
    let text = String::from_utf8(envelopes[0].payload.clone()).unwrap();
    assert!(text.contains(r#""found":false"#));
}

#[test]
fn broker_validation_errors_stay_silent() {
    let store = RecordStore::new();
    let sid = bytes("A");
    let envelopes = respond_broker(&store, &msg(r#"{"type":"uuid"}"#), &sid, false, 8192);
    assert_eq!(envelopes.len(), 0);
}

#[test]
fn oversized_broker_response_is_fragmented_with_summary_last() {
    let mut store = RecordStore::new();
    dispatch_message(&mut store, &msg(CREATE_ONE));
    let sid = bytes("A");
    let m = msg(r#"{"type":"uuid","data":"U"}"#);
    let envelopes = respond_broker(&store, &m, &sid, false, 16);
    assert!(envelopes.len() > 2);
    let last = envelopes.last().unwrap();
    assert_eq!(
        String::from_utf8(last.topic.clone()).unwrap(),
        "rust/response/A/uuid/U"
    );
    let summary = String::from_utf8(last.payload.clone()).unwrap();
    assert!(summary.contains(r#""type":"split_summary""#));
    assert!(summary.contains(&format!(r#""total_chunks":{}"#, envelopes.len() - 1)));
    for (k, env) in envelopes[..envelopes.len() - 1].iter().enumerate() {
        let topic = String::from_utf8(env.topic.clone()).unwrap();
        assert_eq!(
            topic,
            format!("rust/response/A/uuid/U/split/{}/{}", k + 1, envelopes.len() - 1)
        );
    }
    let fragment_payloads: Vec<Vec<u8>> = envelopes[..envelopes.len() - 1]
        .iter()
        .map(|e| e.payload.clone())
        .collect();
    let rebuilt = datacenter::chunk::reassemble_fragments(&fragment_payloads).unwrap();
    let whole = respond_broker(&store, &m, &sid, false, 8192);
    assert_eq!(whole.len(), 1);
    assert_eq!(rebuilt, whole[0].payload);
}

#[test]
fn raw_broker_payloads_are_parsed_and_answered() {
    let store = RecordStore::new();
    let sid = bytes("A");
    let envelopes = datacenter::dispatch::handle_broker_payload(
        &store,
        &bytes(r#"{"type":"uuid","data":"U"}"#),
        &sid,
        false,
        8192,
    );
    assert_eq!(envelopes.len(), 1);
    let envelopes = datacenter::dispatch::handle_broker_payload(
        &store,
        &bytes("not json at all"),
        &sid,
        false,
        8192,
    );
    assert_eq!(envelopes.len(), 0);
}

#[test]
fn exactly_the_valid_json_documents_parse_to_messages() {
    assert!(parse_message(&bytes("5")).is_some());
    assert!(parse_message(&bytes("[1,2]")).is_some());
    assert!(parse_message(&bytes("{}")).is_some());
    assert!(parse_message(&bytes("not json")).is_none());
    assert!(parse_message(&bytes("")).is_none());
    assert!(parse_message(&bytes("{\"type\":")).is_none());
}

#[test]
fn invalid_json_is_reported() {
    let mut store = RecordStore::new();
    let outcome = process_json(&mut store, &bytes("this is not json"));
    assert!(outcome.is_none());
    let outcome = process_json(&mut store, &bytes(r#"{"type":"command","command":"status"}"#));
    assert!(matches!(
        outcome,
        Some(TcpOutcome::Admin(RouterOutcome::StatusOk))
    ));
}
