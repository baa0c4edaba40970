//! The head tracker record: the roots and slots of the chain heads, stored as
//! an SSZ container of two lists.

use vstd::prelude::*;
use vstd::bytes::*;
use vstd::slice::slice_subrange;
use crate::codec::{
    decode_roots, decode_u64s, encode_offset, encode_roots, encode_u64s,
    lemma_roots_bytes_injective, lemma_roots_uniform, lemma_u64s_bytes_injective,
    lemma_u64s_uniform, read_offset, roots_bytes, sanitize_offset, u64s_bytes, SszError,
    BYTES_PER_LENGTH_OFFSET, MAX_LENGTH_VALUE,
};
use crate::{Hash256, Slot};

verus! {

/// Helper struct that is used to encode/decode the state of the head tracker
/// as SSZ bytes: the root and the slot of each head.
#[derive(Clone, Debug)]
pub struct SszHeadTracker {
    pub roots: Vec<Hash256>,
    pub slots: Vec<Slot>,
}

/// The value a head tracker holds.
#[verifier::ext_equal]
pub struct HeadTrackerView {
    pub roots: Seq<Hash256>,
    pub slots: Seq<Slot>,
}

impl View for SszHeadTracker {
    type V = HeadTrackerView;

    open spec fn view(&self) -> HeadTrackerView {
        HeadTrackerView { roots: self.roots@, slots: self.slots@ }
    }
}

/// Bytes in the fixed part of a head tracker: one offset per list.
pub const HEAD_TRACKER_FIXED_LEN: usize = 8;

impl HeadTrackerView {
    /// Where the slots start in the encoding.
    pub open spec fn slots_offset(self) -> nat {
        8 + 32 * self.roots.len()
    }

    /// Length of the encoding.
    pub open spec fn ssz_len(self) -> nat {
        8 + 32 * self.roots.len() + 8 * self.slots.len()
    }

    /// Both offsets fit in the four bytes SSZ gives an offset.
    pub open spec fn offsets_fit(self) -> bool {
        self.slots_offset() <= MAX_LENGTH_VALUE
    }

    /// The offsets fit and the encoding fits in one allocation.
    pub open spec fn encodable(self) -> bool {
        &&& self.offsets_fit()
        &&& self.ssz_len() <= isize::MAX
    }

    /// The SSZ encoding: the offset of the roots (8), the offset of the
    /// slots, the roots, then the slots.
    pub open spec fn ssz_bytes(self) -> Seq<u8> {
        spec_u32_to_le_bytes(8) + spec_u32_to_le_bytes(self.slots_offset() as u32)
            + roots_bytes(self.roots) + u64s_bytes(self.slots)
    }
}

/// Why `bytes` is not a head tracker encoding, as the SSZ decoder reports it
/// (the first failing check wins), or `None` when it is one.
pub open spec fn head_tracker_decode_error(bytes: Seq<u8>) -> Option<SszError> {
    if bytes.len() < 4 {
        Some(SszError::InvalidLengthPrefix { len: bytes.len() as usize, expected: 4 })
    } else {
        let first = spec_u32_from_le_bytes(bytes.subrange(0, 4)) as usize;
        if first > bytes.len() {
            Some(SszError::OffsetOutOfBounds(first))
        } else if bytes.len() < 8 {
            Some(SszError::InvalidLengthPrefix { len: (bytes.len() - 4) as usize, expected: 4 })
        } else {
            let second = spec_u32_from_le_bytes(bytes.subrange(4, 8)) as usize;
            if second > bytes.len() {
                Some(SszError::OffsetOutOfBounds(second))
            } else if first > second {
                Some(SszError::OffsetsAreDecreasing(second))
            } else if first < 8 {
                Some(SszError::OffsetIntoFixedPortion(first))
            } else if first > 8 {
                Some(SszError::OffsetSkipsVariableBytes(first))
            } else if (second - 8) % 32 != 0 {
                Some(SszError::InvalidByteLength { len: ((second - 8) % 32) as usize, expected: 32 })
            } else if (bytes.len() - second) % 8 != 0 {
                Some(
                    SszError::InvalidByteLength {
                        len: ((bytes.len() - second) % 8) as usize,
                        expected: 8,
                    },
                )
            } else {
                None
            }
        }
    }
}

impl SszHeadTracker {
    /// Whether the head tracker can be encoded: its offsets fit in four
    /// bytes and its encoding in one allocation.
    pub fn is_encodable(&self) -> (r: bool)
        ensures
            r == self@.encodable(),
    {
        let roots_len = 32 * (self.roots.len() as u128);
        let slots_len = 8 * (self.slots.len() as u128);
        8 + roots_len <= MAX_LENGTH_VALUE as u128 && 8 + roots_len + slots_len
            <= isize::MAX as u128
    }

    /// Length of the SSZ encoding.
    pub fn ssz_bytes_len(&self) -> (r: usize)
        requires
            self@.ssz_len() <= usize::MAX,
        ensures
            r == self@.ssz_len(),
    {
        let roots_len = 32 * self.roots.len();
        let slots_len = 8 * self.slots.len();
        BYTES_PER_LENGTH_OFFSET + roots_len + BYTES_PER_LENGTH_OFFSET + slots_len
    }

    /// The SSZ encoding of the head tracker.
    pub fn as_ssz_bytes(&self) -> (r: Vec<u8>)
        requires
            self@.encodable(),
        ensures
            r@ == self@.ssz_bytes(),
    {
        proof {
            lemma_roots_uniform(self.roots@);
            lemma_u64s_uniform(self.slots@);
        }
        let mut roots = encode_roots(&self.roots);
        let mut slots = encode_u64s(&self.slots);
        let mut buf = encode_offset(HEAD_TRACKER_FIXED_LEN);
        let mut slots_offset = encode_offset(HEAD_TRACKER_FIXED_LEN + roots.len());
        buf.append(&mut slots_offset);
        buf.append(&mut roots);
        buf.append(&mut slots);
        buf
    }

    /// Decodes a head tracker from its SSZ encoding.
    pub fn from_ssz_bytes(bytes: &[u8]) -> (r: Result<Self, SszError>)
        ensures
            match r {
                Ok(t) => {
                    &&& head_tracker_decode_error(bytes@) is None
                    &&& t@.offsets_fit()
                    &&& t@.ssz_bytes() == bytes@
                },
                Err(e) => head_tracker_decode_error(bytes@) == Some(e),
            },
    {
        proof {
            lemma_auto_spec_u32_to_from_le_bytes();
        }
        let len = bytes.len();
        let first = match read_offset(bytes) {
            Ok(o) => o,
            Err(e) => return Err(e),
        };
        let first = match sanitize_offset(first, None, len, None) {
            Ok(o) => o,
            Err(e) => return Err(e),
        };
        let rest = slice_subrange(bytes, BYTES_PER_LENGTH_OFFSET, len);
        assert(len >= 8 ==> rest@.subrange(0, 4) =~= bytes@.subrange(4, 8));
        let second = match read_offset(rest) {
            Ok(o) => o,
            Err(e) => return Err(e),
        };
        let second = match sanitize_offset(second, Some(first), len, None) {
            Ok(o) => o,
            Err(e) => return Err(e),
        };
        if first < HEAD_TRACKER_FIXED_LEN {
            return Err(SszError::OffsetIntoFixedPortion(first));
        }
        if first > HEAD_TRACKER_FIXED_LEN {
            return Err(SszError::OffsetSkipsVariableBytes(first));
        }
        let roots = match decode_roots(slice_subrange(bytes, first, second)) {
            Ok(roots) => roots,
            Err(e) => return Err(e),
        };
        let slots = match decode_u64s(slice_subrange(bytes, second, len)) {
            Ok(slots) => slots,
            Err(e) => return Err(e),
        };
        let t = SszHeadTracker { roots, slots };
        proof {
            lemma_roots_uniform(roots@);
            let s0 = bytes@.subrange(0, 4);
            let s1 = bytes@.subrange(4, 8);
            assert(spec_u32_to_le_bytes(spec_u32_from_le_bytes(s0)) == s0);
            assert(spec_u32_to_le_bytes(spec_u32_from_le_bytes(s1)) == s1);
            assert(spec_u32_from_le_bytes(s0) == 8);
            assert(t@.slots_offset() == second);
            assert(bytes@ =~= s0 + s1 + bytes@.subrange(8, second as int) + bytes@.subrange(
                second as int,
                len as int,
            ));
        }
        Ok(t)
    }
}


/// The length `ssz_bytes_len` reports is the length of the encoding.
pub proof fn lemma_head_tracker_ssz_len(v: HeadTrackerView)
    ensures
        v.ssz_bytes().len() == v.ssz_len(),
{
    lemma_auto_spec_u32_to_from_le_bytes();
    lemma_roots_uniform(v.roots);
    lemma_u64s_uniform(v.slots);
    assert(spec_u32_to_le_bytes(8).len() == 4);
    assert(spec_u32_to_le_bytes(v.slots_offset() as u32).len() == 4);
}

/// Decoding the encoding of a head tracker whose offsets fit succeeds.
pub proof fn lemma_head_tracker_encoding_decodes(v: HeadTrackerView)
    requires
        v.offsets_fit(),
    ensures
        head_tracker_decode_error(v.ssz_bytes()) is None,
{
    lemma_auto_spec_u32_to_from_le_bytes();
    lemma_roots_uniform(v.roots);
    lemma_u64s_uniform(v.slots);
    let b = v.ssz_bytes();
    let a0 = spec_u32_to_le_bytes(8);
    let a1 = spec_u32_to_le_bytes(v.slots_offset() as u32);
    assert(b.subrange(0, 4) =~= a0);
    assert(b.subrange(4, 8) =~= a1);
    assert(spec_u32_from_le_bytes(a0) == 8);
    assert(spec_u32_from_le_bytes(a1) == v.slots_offset());
    let n = v.roots.len();
    let m = v.slots.len();
    assert((32 * n) % 32 == 0) by (nonlinear_arith);
    assert((8 * m) % 8 == 0) by (nonlinear_arith);
    assert(b.len() == v.slots_offset() + 8 * m);
}

/// Two head trackers whose offsets fit and whose encodings are equal are
/// equal: the encoding determines the value.
pub proof fn lemma_head_tracker_encoding_injective(v: HeadTrackerView, w: HeadTrackerView)
    requires
        v.offsets_fit(),
        w.offsets_fit(),
        v.ssz_bytes() == w.ssz_bytes(),
    ensures
        v == w,
{
    lemma_auto_spec_u32_to_from_le_bytes();
    lemma_roots_uniform(v.roots);
    lemma_u64s_uniform(v.slots);
    lemma_roots_uniform(w.roots);
    lemma_u64s_uniform(w.slots);
    let b = v.ssz_bytes();
    let c = w.ssz_bytes();
    let bv = spec_u32_to_le_bytes(v.slots_offset() as u32);
    let bw = spec_u32_to_le_bytes(w.slots_offset() as u32);
    assert(b.subrange(4, 8) =~= bv);
    assert(c.subrange(4, 8) =~= bw);
    assert(spec_u32_from_le_bytes(bv) == v.slots_offset());
    assert(spec_u32_from_le_bytes(bw) == w.slots_offset());
    assert(v.roots.len() == w.roots.len());
    let off = v.slots_offset() as int;
    assert(b.subrange(8, off) =~= roots_bytes(v.roots));
    assert(c.subrange(8, off) =~= roots_bytes(w.roots));
    assert(b.subrange(off, b.len() as int) =~= u64s_bytes(v.slots));
    assert(c.subrange(off, c.len() as int) =~= u64s_bytes(w.slots));
    lemma_roots_bytes_injective(v.roots, w.roots);
    lemma_u64s_bytes_injective(v.slots, w.slots);
    assert(v =~= w);
}

} // verus!
