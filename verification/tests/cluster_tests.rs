use datacenter::cluster::{ClusterLayout, ClusterSlot};

#[test]
fn writes_use_the_primary_and_reads_the_first_secondary() {
    let layout = ClusterLayout { primary_count: 1, secondary_count: 2 };
    assert_eq!(layout.write_target(), 0);
    assert_eq!(layout.read_target(), 0);
}

#[test]
fn first_installation_wins() {
    let mut slot = ClusterSlot::new();
    let first = ClusterLayout { primary_count: 1, secondary_count: 2 };
    assert!(slot.install(first).is_none());
    let second = ClusterLayout { primary_count: 9, secondary_count: 9 };
    let loser = slot.install(second).expect("the race loser comes back to be closed");
    assert_eq!(loser.primary_count, 9);
    match &slot.installed {
        Some(kept) => assert_eq!(kept.primary_count, 1),
        None => panic!("a layout must stay installed"),
    }
}
