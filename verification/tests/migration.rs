use beacon_schema::head_tracker::SszHeadTracker;
use beacon_schema::migration::{
    downgrade_from_v23, upgrade_to_v23, ViableHead, DUMMY_CANONICAL_HEAD_BLOCK_ROOT,
};
use beacon_schema::persisted::{PersistedBeaconChain, PersistedBeaconChainV22};

#[test]
fn dummy_root_is_all_ff() {
    assert_eq!(DUMMY_CANONICAL_HEAD_BLOCK_ROOT, [0xff; 32]);
}

#[test]
fn upgrade_keeps_genesis_only() {
    let old = PersistedBeaconChainV22 {
        _canonical_head_block_root: [1; 32],
        genesis_block_root: [2; 32],
        ssz_head_tracker: SszHeadTracker { roots: vec![[3; 32]], slots: vec![4] },
    };
    assert_eq!(upgrade_to_v23(&old), PersistedBeaconChain { genesis_block_root: [2; 32] });
}

#[test]
fn downgrade_rebuilds_head_tracker() {
    let new = PersistedBeaconChain { genesis_block_root: [7; 32] };
    let heads = vec![
        ViableHead { root: [10; 32], slot: 100 },
        ViableHead { root: [11; 32], slot: 101 },
    ];
    let old = downgrade_from_v23(&new, &heads);
    assert_eq!(old._canonical_head_block_root, [0xff; 32]);
    assert_eq!(old.genesis_block_root, [7; 32]);
    assert_eq!(old.ssz_head_tracker.roots, vec![[10; 32], [11; 32]]);
    assert_eq!(old.ssz_head_tracker.slots, vec![100, 101]);
}

#[test]
fn downgrade_without_heads() {
    let new = PersistedBeaconChain { genesis_block_root: [7; 32] };
    let old = downgrade_from_v23(&new, &vec![]);
    assert!(old.ssz_head_tracker.roots.is_empty());
    assert!(old.ssz_head_tracker.slots.is_empty());
}

#[test]
fn downgrade_then_upgrade_gives_record_back() {
    let new = PersistedBeaconChain { genesis_block_root: [9; 32] };
    let heads = vec![ViableHead { root: [1; 32], slot: 5 }];
    assert_eq!(upgrade_to_v23(&downgrade_from_v23(&new, &heads)), new);
}

#[test]
fn downgraded_record_survives_the_store() {
    let new = PersistedBeaconChain { genesis_block_root: [9; 32] };
    let heads = vec![ViableHead { root: [1; 32], slot: 5 }, ViableHead { root: [2; 32], slot: 6 }];
    let old = downgrade_from_v23(&new, &heads);
    assert!(old.is_encodable());
    let bytes = old.as_store_bytes();
    let back = PersistedBeaconChainV22::from_store_bytes(&bytes).unwrap();
    assert_eq!(upgrade_to_v23(&back), new);
    assert_eq!(back.ssz_head_tracker.slots, vec![5, 6]);
}
