//! The record conversions of the schema version 23 migration: upgrading drops
//! the head tracker from the beacon chain record, downgrading rebuilds it
//! from the viable heads of fork choice.

use vstd::prelude::*;
use crate::head_tracker::{HeadTrackerView, SszHeadTracker};
use crate::persisted::{PersistedBeaconChain, PersistedBeaconChainV22, PersistedBeaconChainV22View};
use crate::{Hash256, Slot};

verus! {

/// Dummy value to use for the canonical head block root of a downgraded
/// record: every byte is `0xff`.
pub const DUMMY_CANONICAL_HEAD_BLOCK_ROOT: Hash256 = [
    0xff, 0xff, 0xff, 0xff, 0xff, 0xff, 0xff, 0xff,
    0xff, 0xff, 0xff, 0xff, 0xff, 0xff, 0xff, 0xff,
    0xff, 0xff, 0xff, 0xff, 0xff, 0xff, 0xff, 0xff,
    0xff, 0xff, 0xff, 0xff, 0xff, 0xff, 0xff, 0xff,
];

/// A viable head of fork choice: its block root and slot.
#[derive(Clone, Copy, Debug, PartialEq, Eq)]
pub struct ViableHead {
    pub root: Hash256,
    pub slot: Slot,
}

/// The record an upgrade writes for a schema version 22 record.
pub open spec fn spec_upgrade_to_v23(old: PersistedBeaconChainV22View) -> PersistedBeaconChain {
    PersistedBeaconChain { genesis_block_root: old.genesis_block_root }
}

/// The record a downgrade writes for a schema version 23 record and the
/// viable heads of fork choice.
pub open spec fn spec_downgrade_from_v23(
    new: PersistedBeaconChain,
    heads: Seq<ViableHead>,
) -> PersistedBeaconChainV22View {
    PersistedBeaconChainV22View {
        canonical_head_block_root: DUMMY_CANONICAL_HEAD_BLOCK_ROOT,
        genesis_block_root: new.genesis_block_root,
        head_tracker: HeadTrackerView {
            roots: heads.map_values(|h: ViableHead| h.root),
            slots: heads.map_values(|h: ViableHead| h.slot),
        },
    }
}

/// Converts the schema version 22 beacon chain record to the schema version
/// 23 one: the genesis block root is kept, the head tracker and the canonical
/// head block root are dropped.
pub fn upgrade_to_v23(persisted_beacon_chain_v22: &PersistedBeaconChainV22) -> (r:
    PersistedBeaconChain)
    ensures
        r == spec_upgrade_to_v23(persisted_beacon_chain_v22@),
        r.genesis_block_root == persisted_beacon_chain_v22.genesis_block_root,
{
    PersistedBeaconChain { genesis_block_root: persisted_beacon_chain_v22.genesis_block_root }
}

/// Builds the schema version 22 beacon chain record from the schema version
/// 23 one and the viable heads of fork choice: the dummy canonical head block
/// root, the same genesis block root, and a head tracker listing the root and
/// the slot of each viable head, in order.
pub fn downgrade_from_v23(
    persisted_beacon_chain: &PersistedBeaconChain,
    heads: &Vec<ViableHead>,
) -> (r: PersistedBeaconChainV22)
    ensures
        r@ == spec_downgrade_from_v23(*persisted_beacon_chain, heads@),
        r._canonical_head_block_root == DUMMY_CANONICAL_HEAD_BLOCK_ROOT,
        r.genesis_block_root == persisted_beacon_chain.genesis_block_root,
        r.ssz_head_tracker.roots@.len() == heads@.len(),
        r.ssz_head_tracker.slots@.len() == heads@.len(),
        forall|i: int|
            0 <= i < heads@.len() ==> r.ssz_head_tracker.roots@[i] == (#[trigger] heads@[i]).root
                && r.ssz_head_tracker.slots@[i] == heads@[i].slot,
{
    let mut head_roots: Vec<Hash256> = Vec::new();
    let mut head_slots: Vec<Slot> = Vec::new();
    let n = heads.len();
    for i in 0..n
        invariant
            n == heads@.len(),
            head_roots@ == heads@.subrange(0, i as int).map_values(|h: ViableHead| h.root),
            head_slots@ == heads@.subrange(0, i as int).map_values(|h: ViableHead| h.slot),
    {
        head_roots.push(heads[i].root);
        head_slots.push(heads[i].slot);
        assert(heads@.subrange(0, i + 1) =~= heads@.subrange(0, i as int).push(heads@[i as int]));
    }
    assert(heads@.subrange(0, n as int) =~= heads@);
    PersistedBeaconChainV22 {
        _canonical_head_block_root: DUMMY_CANONICAL_HEAD_BLOCK_ROOT,
        genesis_block_root: persisted_beacon_chain.genesis_block_root,
        ssz_head_tracker: SszHeadTracker { roots: head_roots, slots: head_slots },
    }
}

/// Upgrading keeps the genesis block root of every schema version 22
/// record, whatever its canonical head block root and head tracker hold.
pub proof fn lemma_upgrade_keeps_genesis_root(old: PersistedBeaconChainV22View)
    ensures
        spec_upgrade_to_v23(old).genesis_block_root == old.genesis_block_root,
{
}

/// The two schema version 23 records an upgrade gives for two schema version
/// 22 records are equal exactly when the two genesis block roots are equal:
/// nothing else of the old record reaches the new one.
pub proof fn lemma_upgrade_depends_on_genesis_root_only(
    a: PersistedBeaconChainV22View,
    b: PersistedBeaconChainV22View,
)
    ensures
        (spec_upgrade_to_v23(a) == spec_upgrade_to_v23(b)) <==> (a.genesis_block_root
            == b.genesis_block_root),
{
}

/// A downgraded record holds every byte of its canonical head block root
/// equal to `0xff`, the genesis block root of the record it came from, and a
/// head tracker with exactly one root and one slot per viable head, in the
/// order of the heads: the `i`-th root and slot are those of the `i`-th head.
pub proof fn lemma_downgrade_lists_every_head(
    new: PersistedBeaconChain,
    heads: Seq<ViableHead>,
)
    ensures
        ({
            let old = spec_downgrade_from_v23(new, heads);
            &&& forall|k: int| 0 <= k < 32 ==> old.canonical_head_block_root@[k] == 0xffu8
            &&& old.genesis_block_root == new.genesis_block_root
            &&& old.head_tracker.roots.len() == heads.len()
            &&& old.head_tracker.slots.len() == heads.len()
            &&& forall|i: int|
                0 <= i < heads.len() ==> old.head_tracker.roots[i] == (#[trigger] heads[i]).root
                    && old.head_tracker.slots[i] == heads[i].slot
        }),
{
    broadcast use vstd::array::group_array_axioms;

    assert forall|k: int| 0 <= k < 32 implies DUMMY_CANONICAL_HEAD_BLOCK_ROOT@[k] == 0xffu8 by {
        assert(DUMMY_CANONICAL_HEAD_BLOCK_ROOT@[k] == DUMMY_CANONICAL_HEAD_BLOCK_ROOT[k]);
    }
}

/// Downgrading a record and upgrading the result gives the record back,
/// whatever the viable heads.
pub proof fn lemma_downgrade_then_upgrade(
    persisted_beacon_chain: PersistedBeaconChain,
    heads: Seq<ViableHead>,
)
    ensures
        spec_upgrade_to_v23(spec_downgrade_from_v23(persisted_beacon_chain, heads))
            == persisted_beacon_chain,
{
}

} // verus!
