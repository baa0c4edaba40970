//! Byte-level building blocks of the SSZ format: length offsets, lists of
//! fixed-size items, and the errors a decoder reports.

use vstd::prelude::*;
use vstd::bytes::*;

verus! {

/// Number of bytes in an SSZ length offset.
pub const BYTES_PER_LENGTH_OFFSET: usize = 4;

/// Largest value an SSZ length offset can hold.
pub const MAX_LENGTH_VALUE: usize = 0xffff_ffff;

/// Why a byte string is not the SSZ encoding of the requested value.
#[derive(Debug, Clone, PartialEq, Eq)]
pub enum SszError {
    /// The bytes are not as long as the value needs.
    InvalidByteLength { len: usize, expected: usize },
    /// The bytes are too short to hold an offset.
    InvalidLengthPrefix { len: usize, expected: usize },
    /// An offset points back into the fixed part.
    OffsetIntoFixedPortion(usize),
    /// The first offset does not point just past the fixed part.
    OffsetSkipsVariableBytes(usize),
    /// An offset is smaller than the one before it.
    OffsetsAreDecreasing(usize),
    /// An offset points past the end of the bytes.
    OffsetOutOfBounds(usize),
    /// Any other decoding failure of the `ssz` crate, by its description.
    BytesInvalid(String),
}

#[verifier::external_type_specification]
#[verifier::external_body]
pub struct ExSszDecodeError(ssz::DecodeError);

/// Moves the two length errors of `ssz::DecodeError` into the variants of the
/// same name of `SszError`, field by field; any other error keeps its
/// description.
#[verifier::external_body]
fn decode_error_from_ssz(e: ssz::DecodeError) -> SszError {
    match e {
        ssz::DecodeError::InvalidByteLength { len, expected } => {
            SszError::InvalidByteLength { len, expected }
        },
        ssz::DecodeError::InvalidLengthPrefix { len, expected } => {
            SszError::InvalidLengthPrefix { len, expected }
        },
        other => SszError::BytesInvalid(format!("{:?}", other)),
    }
}

/// `ssz::encode_length`: the offset `len` as four little-endian bytes.
/// It asserts `len <= MAX_LENGTH_VALUE` in debug builds, hence the `requires`.
#[verifier::external_body]
pub(crate) fn encode_offset(len: usize) -> (r: Vec<u8>)
    requires
        len <= MAX_LENGTH_VALUE,
    ensures
        r@ == spec_u32_to_le_bytes(len as u32),
{
    ssz::encode_length(len).to_vec()
}


/// `ssz::read_offset`: the first four bytes of `bytes` read as a
/// little-endian offset, or `InvalidLengthPrefix` when there are fewer than
/// four.
#[verifier::external_body]
pub(crate) fn read_offset(bytes: &[u8]) -> (r: Result<usize, SszError>)
    ensures
        r == (if bytes@.len() < 4 {
            Err(SszError::InvalidLengthPrefix { len: bytes@.len() as usize, expected: 4 })
        } else {
            Ok(spec_u32_from_le_bytes(bytes@.subrange(0, 4)) as usize)
        }),
{
    ssz::read_offset(bytes).map_err(decode_error_from_ssz)
}

/// What `ssz::sanitize_offset` returns for an offset read from an object of
/// `num_bytes` bytes.
pub open spec fn spec_sanitize_offset(
    offset: usize,
    previous_offset: Option<usize>,
    num_bytes: usize,
    num_fixed_bytes: Option<usize>,
) -> Result<usize, SszError> {
    if num_fixed_bytes matches Some(fixed) && offset < fixed {
        Err(SszError::OffsetIntoFixedPortion(offset))
    } else if previous_offset is None && (num_fixed_bytes matches Some(fixed) && offset != fixed) {
        Err(SszError::OffsetSkipsVariableBytes(offset))
    } else if offset > num_bytes {
        Err(SszError::OffsetOutOfBounds(offset))
    } else if previous_offset matches Some(prev) && prev > offset {
        Err(SszError::OffsetsAreDecreasing(offset))
    } else {
        Ok(offset)
    }
}

/// Checks an offset read from an SSZ object of `num_bytes` bytes against
/// the object's fixed part, the previous offset and the object's end, with
/// the precedence that the SSZ decoder of the `ssz` crate gives these checks.
pub fn sanitize_offset(
    offset: usize,
    previous_offset: Option<usize>,
    num_bytes: usize,
    num_fixed_bytes: Option<usize>,
) -> (r: Result<usize, SszError>)
    ensures
        r == spec_sanitize_offset(offset, previous_offset, num_bytes, num_fixed_bytes),
{
    let into_fixed = match num_fixed_bytes {
        Some(fixed) => offset < fixed,
        None => false,
    };
    let skips = match (previous_offset, num_fixed_bytes) {
        (None, Some(fixed)) => offset != fixed,
        _ => false,
    };
    let decreasing = match previous_offset {
        Some(prev) => prev > offset,
        None => false,
    };
    if into_fixed {
        Err(SszError::OffsetIntoFixedPortion(offset))
    } else if skips {
        Err(SszError::OffsetSkipsVariableBytes(offset))
    } else if offset > num_bytes {
        Err(SszError::OffsetOutOfBounds(offset))
    } else if decreasing {
        Err(SszError::OffsetsAreDecreasing(offset))
    } else {
        Ok(offset)
    }
}

/// The concatenation of `chunks`, in order.
pub open spec fn concat(chunks: Seq<Seq<u8>>) -> Seq<u8>
    decreases chunks.len(),
{
    if chunks.len() == 0 {
        Seq::empty()
    } else {
        concat(chunks.drop_last()) + chunks.last()
    }
}

/// Every chunk holds exactly `size` bytes.
pub open spec fn uniform(chunks: Seq<Seq<u8>>, size: nat) -> bool {
    forall|i: int| 0 <= i < chunks.len() ==> (#[trigger] chunks[i]).len() == size
}

/// The SSZ encoding of a list of 32-byte roots: the roots one after another.
pub open spec fn roots_bytes(roots: Seq<[u8; 32]>) -> Seq<u8> {
    concat(roots.map_values(|h: [u8; 32]| h@))
}

/// The SSZ encoding of a list of `u64`: each as eight little-endian bytes.
pub open spec fn u64s_bytes(values: Seq<u64>) -> Seq<u8> {
    concat(values.map_values(|x: u64| spec_u64_to_le_bytes(x)))
}

/// `<Vec<[u8; 32]> as ssz::Encode>::as_ssz_bytes`: the roots one after
/// another. It computes `32 * len` and reserves that many bytes, hence the
/// `requires`.
#[verifier::external_body]
pub(crate) fn encode_roots(roots: &Vec<[u8; 32]>) -> (r: Vec<u8>)
    requires
        32 * roots@.len() <= isize::MAX,
    ensures
        r@ == roots_bytes(roots@),
{
    ssz::Encode::as_ssz_bytes(roots)
}

/// `<Vec<[u8; 32]> as ssz::Decode>::from_ssz_bytes`: cuts `bytes` into
/// 32-byte roots; a shorter last piece is rejected with `InvalidByteLength`
/// giving that piece's length.
#[verifier::external_body]
pub(crate) fn decode_roots(bytes: &[u8]) -> (r: Result<Vec<[u8; 32]>, SszError>)
    ensures
        match r {
            Ok(roots) => bytes@.len() % 32 == 0 && roots_bytes(roots@) == bytes@,
            Err(e) => bytes@.len() % 32 != 0 && e == SszError::InvalidByteLength {
                len: (bytes@.len() % 32) as usize,
                expected: 32,
            },
        },
{
    <Vec<[u8; 32]> as ssz::Decode>::from_ssz_bytes(bytes).map_err(decode_error_from_ssz)
}

/// `<Vec<u64> as ssz::Encode>::as_ssz_bytes`: each value as eight
/// little-endian bytes. It computes `8 * len` and reserves that many bytes,
/// hence the `requires`.
#[verifier::external_body]
pub(crate) fn encode_u64s(values: &Vec<u64>) -> (r: Vec<u8>)
    requires
        8 * values@.len() <= isize::MAX,
    ensures
        r@ == u64s_bytes(values@),
{
    ssz::Encode::as_ssz_bytes(values)
}

/// `<Vec<u64> as ssz::Decode>::from_ssz_bytes`: cuts `bytes` into 8-byte
/// little-endian values; a shorter last piece is rejected with
/// `InvalidByteLength` giving that piece's length.
#[verifier::external_body]
pub(crate) fn decode_u64s(bytes: &[u8]) -> (r: Result<Vec<u64>, SszError>)
    ensures
        match r {
            Ok(values) => bytes@.len() % 8 == 0 && u64s_bytes(values@) == bytes@,
            Err(e) => bytes@.len() % 8 != 0 && e == SszError::InvalidByteLength {
                len: (bytes@.len() % 8) as usize,
                expected: 8,
            },
        },
{
    <Vec<u64> as ssz::Decode>::from_ssz_bytes(bytes).map_err(decode_error_from_ssz)
}

/// `<[u8; 32] as ssz::Encode>::as_ssz_bytes`: the 32 bytes themselves.
#[verifier::external_body]
pub(crate) fn encode_root(root: &[u8; 32]) -> (r: Vec<u8>)
    ensures
        r@ == root@,
{
    ssz::Encode::as_ssz_bytes(root)
}

/// `<[u8; 32] as ssz::Decode>::from_ssz_bytes`: the bytes as a root when
/// there are exactly 32 of them, else `InvalidByteLength`.
#[verifier::external_body]
pub(crate) fn decode_root(bytes: &[u8]) -> (r: Result<[u8; 32], SszError>)
    ensures
        match r {
            Ok(root) => bytes@.len() == 32 && root@ == bytes@,
            Err(e) => bytes@.len() != 32 && e == SszError::InvalidByteLength {
                len: bytes@.len() as usize,
                expected: 32,
            },
        },
{
    <[u8; 32] as ssz::Decode>::from_ssz_bytes(bytes).map_err(decode_error_from_ssz)
}


/// Concatenating `n` chunks of `size` bytes gives `n * size` bytes.
pub proof fn lemma_concat_len(chunks: Seq<Seq<u8>>, size: nat)
    requires
        uniform(chunks, size),
    ensures
        concat(chunks).len() == chunks.len() * size,
    decreases chunks.len(),
{
    if chunks.len() > 0 {
        let prefix = chunks.drop_last();
        assert(uniform(prefix, size)) by {
            assert forall|i: int| 0 <= i < prefix.len() implies (#[trigger] prefix[i]).len()
                == size by {
                assert(prefix[i] == chunks[i]);
            }
        }
        lemma_concat_len(prefix, size);
        assert(chunks.last() == chunks[chunks.len() - 1]);
        assert((chunks.len() - 1) * size + size == chunks.len() * size) by (nonlinear_arith);
    }
}

/// Chunks of one common nonzero size are recovered from their concatenation.
pub proof fn lemma_concat_injective(c1: Seq<Seq<u8>>, c2: Seq<Seq<u8>>, size: nat)
    requires
        size > 0,
        uniform(c1, size),
        uniform(c2, size),
        concat(c1) == concat(c2),
    ensures
        c1 == c2,
    decreases c1.len(),
{
    lemma_concat_len(c1, size);
    lemma_concat_len(c2, size);
    let n1 = c1.len();
    let n2 = c2.len();
    assert(n1 == n2) by {
        if n1 < n2 {
            assert(n1 * size < n2 * size) by (nonlinear_arith)
                requires
                    n1 < n2,
                    size > 0,
            ;
        } else if n1 > n2 {
            assert(n2 * size < n1 * size) by (nonlinear_arith)
                requires
                    n2 < n1,
                    size > 0,
            ;
        }
    }
    if n1 > 0 {
        let p1 = c1.drop_last();
        let p2 = c2.drop_last();
        assert(uniform(p1, size)) by {
            assert forall|i: int| 0 <= i < p1.len() implies (#[trigger] p1[i]).len() == size by {
                assert(p1[i] == c1[i]);
            }
        }
        assert(uniform(p2, size)) by {
            assert forall|i: int| 0 <= i < p2.len() implies (#[trigger] p2[i]).len() == size by {
                assert(p2[i] == c2[i]);
            }
        }
        lemma_concat_len(p1, size);
        lemma_concat_len(p2, size);
        assert(c1.last() == c1[n1 - 1]);
        assert(c2.last() == c2[n2 - 1]);
        let whole = concat(c1);
        let cut = concat(p1).len();
        assert(concat(p1) == whole.subrange(0, cut as int));
        assert(concat(p2) == whole.subrange(0, cut as int));
        assert(c1.last() == whole.subrange(cut as int, whole.len() as int));
        assert(c2.last() == whole.subrange(cut as int, whole.len() as int));
        lemma_concat_injective(p1, p2, size);
        assert(c1 =~= p1.push(c1.last()));
        assert(c2 =~= p2.push(c2.last()));
    } else {
        assert(c1 =~= c2);
    }
}

/// Every root contributes its 32 bytes.
pub proof fn lemma_roots_uniform(roots: Seq<[u8; 32]>)
    ensures
        uniform(roots.map_values(|h: [u8; 32]| h@), 32),
        roots_bytes(roots).len() == 32 * roots.len(),
{
    broadcast use vstd::array::group_array_axioms;

    let chunks = roots.map_values(|h: [u8; 32]| h@);
    assert forall|i: int| 0 <= i < chunks.len() implies (#[trigger] chunks[i]).len() == 32 by {
        assert(chunks[i] == roots[i]@);
    }
    lemma_concat_len(chunks, 32);
}

/// Every value contributes its 8 little-endian bytes.
pub proof fn lemma_u64s_uniform(values: Seq<u64>)
    ensures
        uniform(values.map_values(|x: u64| spec_u64_to_le_bytes(x)), 8),
        u64s_bytes(values).len() == 8 * values.len(),
{
    lemma_auto_spec_u64_to_from_le_bytes();
    let chunks = values.map_values(|x: u64| spec_u64_to_le_bytes(x));
    assert forall|i: int| 0 <= i < chunks.len() implies (#[trigger] chunks[i]).len() == 8 by {
        assert(chunks[i] == spec_u64_to_le_bytes(values[i]));
    }
    lemma_concat_len(chunks, 8);
}

/// Lists of roots with the same encoding are equal.
pub proof fn lemma_roots_bytes_injective(r1: Seq<[u8; 32]>, r2: Seq<[u8; 32]>)
    requires
        roots_bytes(r1) == roots_bytes(r2),
    ensures
        r1 == r2,
{
    broadcast use vstd::array::group_array_axioms;

    lemma_roots_uniform(r1);
    lemma_roots_uniform(r2);
    let c1 = r1.map_values(|h: [u8; 32]| h@);
    let c2 = r2.map_values(|h: [u8; 32]| h@);
    lemma_concat_injective(c1, c2, 32);
    assert(r1.len() == r2.len()) by {
        assert(c1.len() == c2.len());
    }
    assert forall|i: int| 0 <= i < r1.len() implies r1[i] == r2[i] by {
        assert(c1[i] == c2[i]);
        assert(r1[i]@ == r2[i]@);
        assert(r1[i] =~= r2[i]) by {
            assert forall|j: int| 0 <= j < 32 implies r1[i][j] == r2[i][j] by {
                assert(r1[i]@[j] == r2[i]@[j]);
            }
        }
    }
    assert(r1 =~= r2);
}

/// Lists of `u64` with the same encoding are equal.
pub proof fn lemma_u64s_bytes_injective(v1: Seq<u64>, v2: Seq<u64>)
    requires
        u64s_bytes(v1) == u64s_bytes(v2),
    ensures
        v1 == v2,
{
    lemma_auto_spec_u64_to_from_le_bytes();
    lemma_u64s_uniform(v1);
    lemma_u64s_uniform(v2);
    let c1 = v1.map_values(|x: u64| spec_u64_to_le_bytes(x));
    let c2 = v2.map_values(|x: u64| spec_u64_to_le_bytes(x));
    lemma_concat_injective(c1, c2, 8);
    assert(v1.len() == v2.len()) by {
        assert(c1.len() == c2.len());
    }
    assert forall|i: int| 0 <= i < v1.len() implies v1[i] == v2[i] by {
        assert(c1[i] == c2[i]);
        assert(spec_u64_from_le_bytes(spec_u64_to_le_bytes(v1[i])) == v1[i]);
        assert(spec_u64_from_le_bytes(spec_u64_to_le_bytes(v2[i])) == v2[i]);
    }
    assert(v1 =~= v2);
}

} // verus!
