use datacenter::num::{parse_decimal, Num};
use datacenter::store::{RecordStore, TelemetryRecord};

fn bytes(s: &str) -> Vec<u8> {
    s.as_bytes().to_vec()
}

fn num(s: &str) -> Num {
    parse_decimal(&bytes(s)).unwrap()
}

fn sample_record() -> TelemetryRecord {
    TelemetryRecord {
        uuid: bytes("U"),
        color: bytes("red"),
        timestamp: bytes("T1"),
        energy_cost: num("0.12"),
        energy_consume: num("3.4"),
        temperature: num("21.5"),
        humidity: num("40.0"),
    }
}

#[test]
fn create_stores_one_record() {
    let mut store = RecordStore::new();
    let created = store.create_new_relation(&vec![sample_record()]);
    assert!(created);
    assert_eq!(store.records.len(), 1);
}

#[test]
fn create_twice_is_idempotent() {
    let mut store = RecordStore::new();
    assert!(store.create_new_relation(&vec![sample_record()]));
    let second = store.create_new_relation(&vec![sample_record()]);
    assert!(!second);
    assert_eq!(store.records.len(), 1);
}

#[test]
fn duplicate_uuid_in_one_batch_stored_once() {
    let mut store = RecordStore::new();
    let created = store.create_new_relation(&vec![sample_record(), sample_record()]);
    assert!(created);
    assert_eq!(store.records.len(), 1);
}

#[test]
fn empty_batch_creates_nothing() {
    let mut store = RecordStore::new();
    let created = store.create_new_relation(&Vec::new());
    assert!(!created);
    assert_eq!(store.records.len(), 0);
}

#[test]
fn round_trip_by_every_attribute() {
    let mut store = RecordStore::new();
    store.create_new_relation(&vec![sample_record()]);

    let by_uuid = store.get_specific_uuid_node(&bytes("U")).unwrap();
    assert_eq!(by_uuid.uuid, bytes("U"));
    assert_eq!(by_uuid.color, bytes("red"));
    assert_eq!(by_uuid.timestamp, bytes("T1"));
    assert!(by_uuid.temperature.eq_num(&num("21.5")));
    assert!(by_uuid.humidity.eq_num(&num("40.0")));
    assert!(by_uuid.energy_cost.eq_num(&num("0.12")));
    assert!(by_uuid.energy_consume.eq_num(&num("3.4")));

    let by_color = store.get_nodes_with_color(&bytes("red"));
    assert_eq!(by_color.len(), 1);
    assert_eq!(by_color[0].uuid, bytes("U"));

    let (t, h) = store.get_temperature_humidity_at_time(&bytes("T1")).unwrap();
    assert!(t.eq_num(&num("21.5")));
    assert!(h.eq_num(&num("40.0")));

    let by_pair = store.get_nodes_with_temperature_or_humidity(&num("21.5"), &num("40.0"));
    assert_eq!(by_pair.len(), 1);
    assert_eq!(by_pair[0].uuid, bytes("U"));

    let by_cost = store.get_nodes_with_energy_cost(&num("0.12"));
    assert_eq!(by_cost.len(), 1);
    assert_eq!(by_cost[0].uuid, bytes("U"));

    let by_consume = store.get_nodes_with_energy_consume(&num("3.4"));
    assert_eq!(by_consume.len(), 1);
    assert_eq!(by_consume[0].uuid, bytes("U"));
}

#[test]
fn lookups_miss_on_absent_values() {
    let mut store = RecordStore::new();
    store.create_new_relation(&vec![sample_record()]);
    assert!(store.get_specific_uuid_node(&bytes("other")).is_none());
    assert_eq!(store.get_nodes_with_color(&bytes("blue")).len(), 0);
    assert!(store.get_temperature_humidity_at_time(&bytes("T2")).is_none());
    assert_eq!(store.get_nodes_with_energy_cost(&num("9.99")).len(), 0);
}

#[test]
fn temperature_or_humidity_matches_either_attribute() {
    let mut store = RecordStore::new();
    store.create_new_relation(&vec![sample_record()]);
    let by_temp_only = store.get_nodes_with_temperature_or_humidity(&num("21.5"), &num("99"));
    assert_eq!(by_temp_only.len(), 1);
    let by_humidity_only = store.get_nodes_with_temperature_or_humidity(&num("99"), &num("40"));
    assert_eq!(by_humidity_only.len(), 1);
    let by_neither = store.get_nodes_with_temperature_or_humidity(&num("99"), &num("98"));
    assert_eq!(by_neither.len(), 0);
}

#[test]
fn time_range_is_inclusive_lexicographic() {
    let mut store = RecordStore::new();
    let mut early = sample_record();
    early.uuid = bytes("A");
    early.timestamp = bytes("2024-01-01");
    let mut late = sample_record();
    late.uuid = bytes("B");
    late.timestamp = bytes("2024-03-15");
    store.create_new_relation(&vec![early, late]);

    let all = store.get_nodes_in_time_range(&bytes("2024-01-01"), &bytes("2024-03-15"));
    assert_eq!(all.len(), 2);
    let only_early = store.get_nodes_in_time_range(&bytes("2024-01-01"), &bytes("2024-02-01"));
    assert_eq!(only_early.len(), 1);
    assert_eq!(only_early[0].uuid, bytes("A"));
    let none = store.get_nodes_in_time_range(&bytes("2024-04-01"), &bytes("2024-05-01"));
    assert_eq!(none.len(), 0);
}

#[test]
fn get_all_returns_records_in_insertion_order() {
    let mut store = RecordStore::new();
    let mut first = sample_record();
    first.uuid = bytes("A");
    let mut second = sample_record();
    second.uuid = bytes("B");
    store.create_new_relation(&vec![first]);
    store.create_new_relation(&vec![second]);
    let all = store.get_all_uuid_nodes();
    assert_eq!(all.len(), 2);
    assert_eq!(all[0].uuid, bytes("A"));
    assert_eq!(all[1].uuid, bytes("B"));
}

#[test]
fn color_filter_keeps_every_match_in_order() {
    let mut store = RecordStore::new();
    let mut a = sample_record();
    a.uuid = bytes("A");
    let mut b = sample_record();
    b.uuid = bytes("B");
    b.color = bytes("blue");
    let mut c = sample_record();
    c.uuid = bytes("C");
    store.create_new_relation(&vec![a, b, c]);
    let red = store.get_nodes_with_color(&bytes("red"));
    assert_eq!(red.len(), 2);
    assert_eq!(red[0].uuid, bytes("A"));
    assert_eq!(red[1].uuid, bytes("C"));
}

#[test]
fn reset_deletes_everything() {
    let mut store = RecordStore::new();
    store.create_new_relation(&vec![sample_record()]);
    let layout = datacenter::cluster::reset_database_and_set_topology(&mut store);
    assert_eq!(store.records.len(), 0);
    assert_eq!(layout.primary_count, 1);
    assert_eq!(layout.secondary_count, 2);
}
