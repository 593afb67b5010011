use datacenter::chunk::{
    decode_fragment, encode_fragment, plan_publish, reassemble_fragments, reassemble_payload,
    split_payload, PublishPlan, Qos,
};

fn bytes(s: &str) -> Vec<u8> {
    s.as_bytes().to_vec()
}

#[test]
fn fragment_count_is_ceiling_of_length_over_limit() {
    assert_eq!(split_payload(&bytes("abcdefghij"), 4).len(), 3);
    assert_eq!(split_payload(&bytes("abcdefgh"), 4).len(), 2);
    assert_eq!(split_payload(&bytes("abc"), 4).len(), 1);
    assert_eq!(split_payload(&bytes(""), 4).len(), 0);
    assert_eq!(split_payload(&bytes("abcd"), 1).len(), 4);
}

#[test]
fn fragments_are_consecutive_byte_ranges() {
    let parts = split_payload(&bytes("abcdefghij"), 4);
    assert_eq!(parts[0], bytes("abcd"));
    assert_eq!(parts[1], bytes("efgh"));
    assert_eq!(parts[2], bytes("ij"));
}

#[test]
fn concatenation_reproduces_the_payload() {
    let payload = bytes("the quick brown fox jumps over the lazy dog");
    let parts = split_payload(&payload, 7);
    let rebuilt = reassemble_payload(&parts);
    assert_eq!(rebuilt, payload);
}

#[test]
fn small_payload_is_published_whole_at_most_once() {
    match plan_publish(&bytes("t"), bytes("small"), 8) {
        PublishPlan::Whole(env) => {
            assert_eq!(env.topic, bytes("t"));
            assert_eq!(env.payload, bytes("small"));
            assert!(matches!(env.qos, Qos::AtMostOnce));
        }
        _ => panic!("expected a whole publish"),
    }
}

#[test]
fn payload_at_the_ceiling_is_not_split() {
    assert!(matches!(
        plan_publish(&bytes("t"), bytes("12345678"), 8),
        PublishPlan::Whole(_)
    ));
}

#[test]
fn oversized_payload_is_split_with_indexed_topics_and_summary() {
    match plan_publish(&bytes("base"), bytes("abcdefghij"), 4) {
        PublishPlan::Split { fragments, summary } => {
            assert_eq!(fragments.len(), 3);
            assert_eq!(
                String::from_utf8(fragments[0].topic.clone()).unwrap(),
                "base/split/1/3"
            );
            assert_eq!(
                String::from_utf8(fragments[2].topic.clone()).unwrap(),
                "base/split/3/3"
            );
            assert_eq!(fragments[0].payload, bytes("1/3/10\nabcd"));
            assert_eq!(fragments[1].payload, bytes("2/3/10\nefgh"));
            assert_eq!(fragments[2].payload, bytes("3/3/10\nij"));
            for f in &fragments {
                assert!(matches!(f.qos, Qos::AtLeastOnce));
            }
            assert_eq!(summary.topic, bytes("base"));
            assert!(matches!(summary.qos, Qos::AtLeastOnce));
            assert_eq!(
                String::from_utf8(summary.payload.clone()).unwrap(),
                r#"{"original_length":10,"total_chunks":3,"type":"split_summary"}"#
            );
        }
        _ => panic!("expected a split publish"),
    }
}

#[test]
fn fragment_envelope_codec_round_trips() {
    let env = encode_fragment(2, 7, 4096, &bytes("body bytes"));
    assert_eq!(env, bytes("2/7/4096\nbody bytes"));
    let (i, n, l, raw) = decode_fragment(&env).unwrap();
    assert_eq!((i, n, l), (2, 7, 4096));
    assert_eq!(raw, bytes("body bytes"));
}

#[test]
fn decode_rejects_malformed_envelopes() {
    assert!(decode_fragment(&bytes("")).is_none());
    assert!(decode_fragment(&bytes("abc")).is_none());
    assert!(decode_fragment(&bytes("1/2")).is_none());
    assert!(decode_fragment(&bytes("1/2/3")).is_none());
    assert!(decode_fragment(&bytes("01/2/3\nx")).is_none());
    assert!(decode_fragment(&bytes("1//3\nx")).is_none());
}

#[test]
fn summary_chunk_count_matches_fragment_publishes() {
    match plan_publish(&bytes("t"), vec![0x61; 100], 9) {
        PublishPlan::Split { fragments, summary } => {
            let text = String::from_utf8(summary.payload.clone()).unwrap();
            assert_eq!(fragments.len(), 12);
            assert!(text.contains(r#""total_chunks":12"#));
            assert!(text.contains(r#""original_length":100"#));
            let envelopes: Vec<Vec<u8>> = fragments.iter().map(|f| f.payload.clone()).collect();
            assert_eq!(reassemble_fragments(&envelopes).unwrap(), vec![0x61; 100]);
        }
        _ => panic!("expected a split publish"),
    }
}

#[test]
fn reassembly_rejects_inconsistent_fragment_sets() {
    let good = vec![
        encode_fragment(1, 2, 8, &bytes("abcd")),
        encode_fragment(2, 2, 8, &bytes("efgh")),
    ];
    assert_eq!(reassemble_fragments(&good).unwrap(), bytes("abcdefgh"));

    let out_of_order = vec![
        encode_fragment(2, 2, 8, &bytes("efgh")),
        encode_fragment(1, 2, 8, &bytes("abcd")),
    ];
    assert!(reassemble_fragments(&out_of_order).is_none());

    let wrong_total = vec![
        encode_fragment(1, 3, 8, &bytes("abcd")),
        encode_fragment(2, 3, 8, &bytes("efgh")),
    ];
    assert!(reassemble_fragments(&wrong_total).is_none());

    let wrong_length = vec![
        encode_fragment(1, 2, 9, &bytes("abcd")),
        encode_fragment(2, 2, 9, &bytes("efgh")),
    ];
    assert!(reassemble_fragments(&wrong_length).is_none());

    assert!(reassemble_fragments(&Vec::new()).is_none());
}
