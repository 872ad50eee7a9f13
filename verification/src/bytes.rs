//! Byte views of integer slices, through `bytemuck`.
//!
//! `bytemuck` reinterprets memory in the machine's own byte order. That
//! order is vstd's `endianness()`: one order for the whole machine, though
//! which of the two it is, is left open.

use vstd::prelude::*;
use vstd::endian::{endianness, Endian};

verus! {

/// The unsigned 32-bit pattern of an `i32` (two's complement).
pub open spec fn bit_pattern(v: i32) -> int {
    if v < 0 {
        v + 0x1_0000_0000
    } else {
        v as int
    }
}

/// Byte `k` (0 is the least significant) of a 32-bit pattern `u`.
pub open spec fn byte_of(u: int, k: int) -> u8 {
    ((if k == 0 {
        u
    } else if k == 1 {
        u / 0x100
    } else if k == 2 {
        u / 0x1_0000
    } else {
        u / 0x100_0000
    }) % 0x100) as u8
}

/// The `i32` values laid out in little-endian order, four bytes each.
pub open spec fn i32s_le_bytes(s: Seq<i32>) -> Seq<u8> {
    Seq::new(4 * s.len(), |k: int| byte_of(bit_pattern(s[k / 4]), k % 4))
}

/// The `i32` values laid out in big-endian order, four bytes each.
pub open spec fn i32s_be_bytes(s: Seq<i32>) -> Seq<u8> {
    Seq::new(4 * s.len(), |k: int| byte_of(bit_pattern(s[k / 4]), 3 - k % 4))
}

/// Word `i` of `b`, read as a little-endian `u32` from bytes `4i .. 4i+4`.
pub open spec fn le_word(b: Seq<u8>, i: int) -> u32 {
    (b[4 * i] + 0x100 * b[4 * i + 1] + 0x1_0000 * b[4 * i + 2] + 0x100_0000 * b[4 * i + 3]) as u32
}

/// Word `i` of `b`, read as a big-endian `u32` from bytes `4i .. 4i+4`.
pub open spec fn be_word(b: Seq<u8>, i: int) -> u32 {
    (b[4 * i + 3] + 0x100 * b[4 * i + 2] + 0x1_0000 * b[4 * i + 1] + 0x100_0000 * b[4 * i]) as u32
}

/// The whole words of `b`, little-endian.
pub open spec fn words_le(b: Seq<u8>) -> Seq<u32> {
    Seq::new(b.len() / 4, |i: int| le_word(b, i))
}

/// The whole words of `b`, big-endian.
pub open spec fn words_be(b: Seq<u8>) -> Seq<u32> {
    Seq::new(b.len() / 4, |i: int| be_word(b, i))
}

/// The `i32` values laid out in the machine's byte order.
pub open spec fn native_bytes_of_i32s(s: Seq<i32>) -> Seq<u8> {
    match endianness() {
        Endian::Little => i32s_le_bytes(s),
        Endian::Big => i32s_be_bytes(s),
    }
}

/// The whole words of `b`, read in the machine's byte order.
pub open spec fn native_words(b: Seq<u8>) -> Seq<u32> {
    match endianness() {
        Endian::Little => words_le(b),
        Endian::Big => words_be(b),
    }
}

/// A 32-bit pattern is the sum of its four bytes, each at its place.
proof fn lemma_bytes_recompose(u: u32)
    by (bit_vector)
    ensures
        (u % 256) + 256 * ((u / 256) % 256) + 65536 * ((u / 65536) % 256) + 16777216 * ((u / 16777216)
            % 256) == u,
{
}

/// Reading back, in one byte order, the `i32`s laid out in that order
/// gives their bit patterns.
pub proof fn lemma_i32s_round_trip(s: Seq<i32>)
    ensures
        words_le(i32s_le_bytes(s)) == s.map_values(|v: i32| bit_pattern(v) as u32),
        words_be(i32s_be_bytes(s)) == s.map_values(|v: i32| bit_pattern(v) as u32),
{
    let le = i32s_le_bytes(s);
    let be = i32s_be_bytes(s);
    let expected = s.map_values(|v: i32| bit_pattern(v) as u32);
    assert(le.len() / 4 == s.len());
    assert(be.len() / 4 == s.len());
    assert forall|i: int| 0 <= i < s.len() implies words_le(le)[i] == expected[i] && words_be(be)[i] == expected[i] by {
        let u = bit_pattern(s[i]);
        let w = u as u32;
        assert(0 <= u < 0x1_0000_0000);
        assert(w as int == u);
        lemma_bytes_recompose(w);
        assert((4 * i) / 4 == i && (4 * i) % 4 == 0);
        assert((4 * i + 1) / 4 == i && (4 * i + 1) % 4 == 1);
        assert((4 * i + 2) / 4 == i && (4 * i + 2) % 4 == 2);
        assert((4 * i + 3) / 4 == i && (4 * i + 3) % 4 == 3);
        assert(le[4 * i] == byte_of(u, 0));
        assert(le[4 * i + 1] == byte_of(u, 1));
        assert(le[4 * i + 2] == byte_of(u, 2));
        assert(le[4 * i + 3] == byte_of(u, 3));
        assert(be[4 * i] == byte_of(u, 3));
        assert(be[4 * i + 1] == byte_of(u, 2));
        assert(be[4 * i + 2] == byte_of(u, 1));
        assert(be[4 * i + 3] == byte_of(u, 0));
    }
    assert(words_le(le) =~= expected);
    assert(words_be(be) =~= expected);
}

/// The error that `bytemuck` reports for a cast it refuses.
#[verifier::external_type_specification]
#[verifier::external_body]
pub struct ExPodCastError(bytemuck::PodCastError);

/// Calls `bytemuck::cast_slice::<i32, u8>` and copies the result.
///
/// The source casts in place, so the bytes are the values' memory in the
/// machine's byte order; it never fails for this pair of types (the
/// target's alignment is 1 and any byte count is whole), so it does not
/// panic. The contract claims the bytes are the values laid out in the
/// machine's byte order, vstd's `endianness()`.
#[verifier::external_body]
pub(crate) fn i32s_as_bytes(values: &[i32]) -> (bytes: Vec<u8>)
    ensures
        bytes@ == native_bytes_of_i32s(values@),
{
    bytemuck::cast_slice::<i32, u8>(values).to_vec()
}

/// Calls `bytemuck::try_cast_slice::<u8, u32>` and copies the result.
///
/// The source refuses the cast when the bytes are not aligned to 4
/// (an address, so nothing here states when) or when their count is not
/// a multiple of 4; otherwise it reads the memory as words in the
/// machine's byte order. The contract claims: a count that is not a
/// multiple of 4 is refused, and an accepted cast gives the words of the
/// bytes in the machine's byte order, vstd's `endianness()`.
#[verifier::external_body]
pub(crate) fn try_bytes_as_words(bytes: &[u8]) -> (words: Result<Vec<u32>, bytemuck::PodCastError>)
    ensures
        bytes@.len() % 4 != 0 ==> words is Err,
        words matches Ok(w) ==> w@ == native_words(bytes@),
{
    match bytemuck::try_cast_slice::<u8, u32>(bytes) {
        Ok(w) => Ok(w.to_vec()),
        Err(e) => Err(e),
    }
}

} // verus!
