//! The beacon chain record kept under the beacon chain key of the store: the
//! layout before schema version 23 (with a head tracker) and the layout from
//! schema version 23 on (the genesis block root alone).

use vstd::prelude::*;
use vstd::bytes::*;
use vstd::slice::slice_subrange;
use crate::codec::{
    decode_root, encode_offset, encode_root, read_offset, sanitize_offset, SszError,
    BYTES_PER_LENGTH_OFFSET, MAX_LENGTH_VALUE,
};
use crate::head_tracker::{
    head_tracker_decode_error, lemma_head_tracker_encoding_decodes,
    lemma_head_tracker_encoding_injective, lemma_head_tracker_ssz_len, HeadTrackerView,
    SszHeadTracker,
};
use crate::Hash256;

verus! {

/// The store columns these records live in.
#[derive(Clone, Copy, Debug, PartialEq, Eq, Structural)]
pub enum DBColumn {
    BeaconChain,
}

/// Errors of the store when it reads a record.
#[derive(Debug, Clone, PartialEq, Eq)]
pub enum StoreError {
    SszDecodeError(SszError),
}

/// The beacon chain record as schema version 22 and earlier stored it.
#[derive(Clone, Debug)]
pub struct PersistedBeaconChainV22 {
    /// This value is ignored when the record is read; it is kept in the
    /// encoding so that the layout stays the same.
    pub _canonical_head_block_root: Hash256,
    pub genesis_block_root: Hash256,
    /// DEPRECATED
    pub ssz_head_tracker: SszHeadTracker,
}

/// The value a schema version 22 beacon chain record holds.
#[verifier::ext_equal]
pub struct PersistedBeaconChainV22View {
    pub canonical_head_block_root: Hash256,
    pub genesis_block_root: Hash256,
    pub head_tracker: HeadTrackerView,
}

impl View for PersistedBeaconChainV22 {
    type V = PersistedBeaconChainV22View;

    open spec fn view(&self) -> PersistedBeaconChainV22View {
        PersistedBeaconChainV22View {
            canonical_head_block_root: self._canonical_head_block_root,
            genesis_block_root: self.genesis_block_root,
            head_tracker: self.ssz_head_tracker@,
        }
    }
}

/// Bytes in the fixed part of a schema version 22 record: two roots and the
/// offset of the head tracker.
pub const PERSISTED_BEACON_CHAIN_V22_FIXED_LEN: usize = 68;

impl PersistedBeaconChainV22View {
    /// Length of the encoding.
    pub open spec fn ssz_len(self) -> nat {
        68 + self.head_tracker.ssz_len()
    }

    /// The head tracker's offsets fit in four bytes.
    pub open spec fn offsets_fit(self) -> bool {
        self.head_tracker.offsets_fit()
    }

    /// The offsets fit and the encoding fits in one allocation.
    pub open spec fn encodable(self) -> bool {
        &&& self.offsets_fit()
        &&& self.ssz_len() <= isize::MAX
    }

    /// The SSZ encoding: the two roots, the offset of the head tracker (68),
    /// then the head tracker.
    pub open spec fn ssz_bytes(self) -> Seq<u8> {
        self.canonical_head_block_root@ + self.genesis_block_root@ + spec_u32_to_le_bytes(68)
            + self.head_tracker.ssz_bytes()
    }
}

/// Why `bytes` is not the encoding of a schema version 22 record, as the SSZ
/// decoder reports it (the first failing check wins), or `None` when it is
/// one.
pub open spec fn persisted_beacon_chain_v22_decode_error(bytes: Seq<u8>) -> Option<SszError> {
    if bytes.len() < 32 {
        Some(SszError::InvalidByteLength { len: bytes.len() as usize, expected: 32 })
    } else if bytes.len() < 64 {
        Some(SszError::InvalidByteLength { len: bytes.len() as usize, expected: 64 })
    } else if bytes.len() < 68 {
        Some(SszError::InvalidLengthPrefix { len: (bytes.len() - 64) as usize, expected: 4 })
    } else {
        let offset = spec_u32_from_le_bytes(bytes.subrange(64, 68)) as usize;
        if offset > bytes.len() {
            Some(SszError::OffsetOutOfBounds(offset))
        } else if offset < 68 {
            Some(SszError::OffsetIntoFixedPortion(offset))
        } else if offset > 68 {
            Some(SszError::OffsetSkipsVariableBytes(offset))
        } else {
            head_tracker_decode_error(bytes.subrange(68, bytes.len() as int))
        }
    }
}

impl PersistedBeaconChainV22 {
    /// Whether the record can be encoded: the head tracker's offsets fit in
    /// four bytes and the encoding in one allocation.
    pub fn is_encodable(&self) -> (r: bool)
        ensures
            r == self@.encodable(),
    {
        let roots_len = 32 * (self.ssz_head_tracker.roots.len() as u128);
        let slots_len = 8 * (self.ssz_head_tracker.slots.len() as u128);
        8 + roots_len <= MAX_LENGTH_VALUE as u128 && 76 + roots_len + slots_len
            <= isize::MAX as u128
    }

    /// Length of the SSZ encoding.
    pub fn ssz_bytes_len(&self) -> (r: usize)
        requires
            self@.ssz_len() <= usize::MAX,
        ensures
            r == self@.ssz_len(),
    {
        32 + 32 + BYTES_PER_LENGTH_OFFSET + self.ssz_head_tracker.ssz_bytes_len()
    }

    /// The SSZ encoding of the record.
    pub fn as_ssz_bytes(&self) -> (r: Vec<u8>)
        requires
            self@.encodable(),
        ensures
            r@ == self@.ssz_bytes(),
    {
        let mut buf = encode_root(&self._canonical_head_block_root);
        let mut genesis = encode_root(&self.genesis_block_root);
        let mut offset = encode_offset(PERSISTED_BEACON_CHAIN_V22_FIXED_LEN);
        let mut tracker = self.ssz_head_tracker.as_ssz_bytes();
        buf.append(&mut genesis);
        buf.append(&mut offset);
        buf.append(&mut tracker);
        buf
    }

    /// Decodes the record from its SSZ encoding.
    pub fn from_ssz_bytes(bytes: &[u8]) -> (r: Result<Self, SszError>)
        ensures
            match r {
                Ok(v) => {
                    &&& persisted_beacon_chain_v22_decode_error(bytes@) is None
                    &&& v@.offsets_fit()
                    &&& v@.ssz_bytes() == bytes@
                },
                Err(e) => persisted_beacon_chain_v22_decode_error(bytes@) == Some(e),
            },
    {
        proof {
            lemma_auto_spec_u32_to_from_le_bytes();
        }
        let len = bytes.len();
        if len < 32 {
            return Err(SszError::InvalidByteLength { len, expected: 32 });
        }
        if len < 64 {
            return Err(SszError::InvalidByteLength { len, expected: 64 });
        }
        let offset_bytes = slice_subrange(bytes, 64, len);
        assert(len >= 68 ==> offset_bytes@.subrange(0, 4) =~= bytes@.subrange(64, 68));
        let offset = match read_offset(offset_bytes) {
            Ok(o) => o,
            Err(e) => return Err(e),
        };
        let offset = match sanitize_offset(offset, None, len, None) {
            Ok(o) => o,
            Err(e) => return Err(e),
        };
        if offset < PERSISTED_BEACON_CHAIN_V22_FIXED_LEN {
            return Err(SszError::OffsetIntoFixedPortion(offset));
        }
        if offset > PERSISTED_BEACON_CHAIN_V22_FIXED_LEN {
            return Err(SszError::OffsetSkipsVariableBytes(offset));
        }
        let canonical = match decode_root(slice_subrange(bytes, 0, 32)) {
            Ok(root) => root,
            Err(e) => return Err(e),
        };
        let genesis = match decode_root(slice_subrange(bytes, 32, 64)) {
            Ok(root) => root,
            Err(e) => return Err(e),
        };
        let tracker_bytes = slice_subrange(bytes, 68, len);
        let tracker = match SszHeadTracker::from_ssz_bytes(tracker_bytes) {
            Ok(t) => t,
            Err(e) => return Err(e),
        };
        let v = PersistedBeaconChainV22 {
            _canonical_head_block_root: canonical,
            genesis_block_root: genesis,
            ssz_head_tracker: tracker,
        };
        proof {
            let s = bytes@.subrange(64, 68);
            assert(spec_u32_to_le_bytes(spec_u32_from_le_bytes(s)) == s);
            assert(spec_u32_from_le_bytes(s) == 68);
            assert(bytes@ =~= bytes@.subrange(0, 32) + bytes@.subrange(32, 64) + s
                + tracker_bytes@);
        }
        Ok(v)
    }

    /// The store column the record lives in.
    pub fn db_column() -> (r: DBColumn)
        ensures
            r == DBColumn::BeaconChain,
    {
        DBColumn::BeaconChain
    }

    /// The bytes the store keeps for the record: its SSZ encoding.
    pub fn as_store_bytes(&self) -> (r: Vec<u8>)
        requires
            self@.encodable(),
        ensures
            r@ == self@.ssz_bytes(),
    {
        self.as_ssz_bytes()
    }

    /// Reads the record from the bytes the store keeps for it.
    pub fn from_store_bytes(bytes: &[u8]) -> (r: Result<Self, StoreError>)
        ensures
            match r {
                Ok(v) => {
                    &&& persisted_beacon_chain_v22_decode_error(bytes@) is None
                    &&& v@.offsets_fit()
                    &&& v@.ssz_bytes() == bytes@
                },
                Err(e) => persisted_beacon_chain_v22_decode_error(bytes@) matches Some(d) && e
                    == StoreError::SszDecodeError(d),
            },
    {
        match Self::from_ssz_bytes(bytes) {
            Ok(v) => Ok(v),
            Err(e) => Err(StoreError::SszDecodeError(e)),
        }
    }
}

/// The length `ssz_bytes_len` reports is the length of the encoding.
pub proof fn lemma_persisted_beacon_chain_v22_ssz_len(v: PersistedBeaconChainV22View)
    ensures
        v.ssz_bytes().len() == v.ssz_len(),
{
    broadcast use vstd::array::group_array_axioms;

    lemma_auto_spec_u32_to_from_le_bytes();
    lemma_head_tracker_ssz_len(v.head_tracker);
    assert(v.canonical_head_block_root@.len() == 32);
    assert(v.genesis_block_root@.len() == 32);
    assert(spec_u32_to_le_bytes(68).len() == 4);
}

/// Decoding the encoding of a schema version 22 record whose offsets fit
/// succeeds.
pub proof fn lemma_persisted_beacon_chain_v22_encoding_decodes(v: PersistedBeaconChainV22View)
    requires
        v.offsets_fit(),
    ensures
        persisted_beacon_chain_v22_decode_error(v.ssz_bytes()) is None,
{
    broadcast use vstd::array::group_array_axioms;

    lemma_auto_spec_u32_to_from_le_bytes();
    lemma_head_tracker_encoding_decodes(v.head_tracker);
    let b = v.ssz_bytes();
    let o = spec_u32_to_le_bytes(68);
    assert(b.subrange(64, 68) =~= o);
    assert(spec_u32_from_le_bytes(o) == 68);
    assert(b.subrange(68, b.len() as int) =~= v.head_tracker.ssz_bytes());
}

/// Two schema version 22 records whose offsets fit and whose encodings are
/// equal are equal.
pub proof fn lemma_persisted_beacon_chain_v22_encoding_injective(
    v: PersistedBeaconChainV22View,
    w: PersistedBeaconChainV22View,
)
    requires
        v.offsets_fit(),
        w.offsets_fit(),
        v.ssz_bytes() == w.ssz_bytes(),
    ensures
        v == w,
{
    broadcast use vstd::array::group_array_axioms;

    let b = v.ssz_bytes();
    assert(v.canonical_head_block_root@.len() == 32);
    assert(w.canonical_head_block_root@.len() == 32);
    assert(v.genesis_block_root@.len() == 32);
    assert(w.genesis_block_root@.len() == 32);
    lemma_auto_spec_u32_to_from_le_bytes();
    assert(spec_u32_to_le_bytes(68).len() == 4);
    assert(b.subrange(0, 32) =~= v.canonical_head_block_root@);
    assert(b.subrange(0, 32) =~= w.canonical_head_block_root@);
    assert(b.subrange(32, 64) =~= v.genesis_block_root@);
    assert(b.subrange(32, 64) =~= w.genesis_block_root@);
    assert(b.subrange(68, b.len() as int) =~= v.head_tracker.ssz_bytes());
    assert(b.subrange(68, b.len() as int) =~= w.head_tracker.ssz_bytes());
    lemma_head_tracker_encoding_injective(v.head_tracker, w.head_tracker);
    assert(v.canonical_head_block_root =~= w.canonical_head_block_root) by {
        assert forall|i: int| 0 <= i < 32 implies v.canonical_head_block_root[i]
            == w.canonical_head_block_root[i] by {
            assert(v.canonical_head_block_root@[i] == w.canonical_head_block_root@[i]);
        }
    }
    assert(v.genesis_block_root =~= w.genesis_block_root) by {
        assert forall|i: int| 0 <= i < 32 implies v.genesis_block_root[i]
            == w.genesis_block_root[i] by {
            assert(v.genesis_block_root@[i] == w.genesis_block_root@[i]);
        }
    }
    assert(v =~= w);
}


/// The beacon chain record as schema version 23 stores it: the genesis block
/// root alone.
#[derive(Clone, Copy, Debug, PartialEq, Eq)]
pub struct PersistedBeaconChain {
    pub genesis_block_root: Hash256,
}

impl PersistedBeaconChain {
    /// The SSZ encoding: the genesis block root's 32 bytes.
    pub open spec fn spec_ssz_bytes(self) -> Seq<u8> {
        self.genesis_block_root@
    }

    /// Length of the SSZ encoding.
    pub fn ssz_bytes_len(&self) -> (r: usize)
        ensures
            r == self.spec_ssz_bytes().len(),
    {
        proof {
            broadcast use vstd::array::group_array_axioms;
            assert(self.genesis_block_root@.len() == 32);
        }
        32
    }

    /// The SSZ encoding of the record.
    pub fn as_ssz_bytes(&self) -> (r: Vec<u8>)
        ensures
            r@ == self.spec_ssz_bytes(),
    {
        encode_root(&self.genesis_block_root)
    }

    /// Decodes the record from its SSZ encoding, which must be exactly 32
    /// bytes long.
    pub fn from_ssz_bytes(bytes: &[u8]) -> (r: Result<Self, SszError>)
        ensures
            match r {
                Ok(v) => bytes@.len() == 32 && v.spec_ssz_bytes() == bytes@,
                Err(e) => bytes@.len() != 32 && e == SszError::InvalidByteLength {
                    len: bytes@.len() as usize,
                    expected: 32,
                },
            },
    {
        let len = bytes.len();
        if len != 32 {
            return Err(SszError::InvalidByteLength { len, expected: 32 });
        }
        match decode_root(bytes) {
            Ok(root) => Ok(PersistedBeaconChain { genesis_block_root: root }),
            Err(e) => Err(e),
        }
    }

    /// The store column the record lives in.
    pub fn db_column() -> (r: DBColumn)
        ensures
            r == DBColumn::BeaconChain,
    {
        DBColumn::BeaconChain
    }

    /// The bytes the store keeps for the record: its SSZ encoding.
    pub fn as_store_bytes(&self) -> (r: Vec<u8>)
        ensures
            r@ == self.spec_ssz_bytes(),
    {
        self.as_ssz_bytes()
    }

    /// Reads the record from the bytes the store keeps for it.
    pub fn from_store_bytes(bytes: &[u8]) -> (r: Result<Self, StoreError>)
        ensures
            match r {
                Ok(v) => bytes@.len() == 32 && v.spec_ssz_bytes() == bytes@,
                Err(e) => bytes@.len() != 32 && e == StoreError::SszDecodeError(
                    SszError::InvalidByteLength { len: bytes@.len() as usize, expected: 32 },
                ),
            },
    {
        match Self::from_ssz_bytes(bytes) {
            Ok(v) => Ok(v),
            Err(e) => Err(StoreError::SszDecodeError(e)),
        }
    }
}

/// Two schema version 23 records with equal encodings are equal.
pub proof fn lemma_persisted_beacon_chain_encoding_injective(
    v: PersistedBeaconChain,
    w: PersistedBeaconChain,
)
    requires
        v.spec_ssz_bytes() == w.spec_ssz_bytes(),
    ensures
        v == w,
{
    broadcast use vstd::array::group_array_axioms;

    assert(v.genesis_block_root =~= w.genesis_block_root) by {
        assert forall|i: int| 0 <= i < 32 implies v.genesis_block_root[i]
            == w.genesis_block_root[i] by {
            assert(v.genesis_block_root@[i] == w.genesis_block_root@[i]);
        }
    }
}

} // verus!
