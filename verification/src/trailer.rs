//! Resume trailer of a plot file.
//!
//! The last 8 bytes of an unfinished plot file hold the number of nonces
//! written so far as a little-endian `u32`, followed by the end marker
//! `AF FE AF FE`. This module holds the byte-level codec; seeking to the
//! tail of the file and reading or writing it is done by the caller.

use vstd::prelude::*;

verus! {

/// The little-endian `u32` held in the first four bytes of a sequence.
pub open spec fn spec_u32_le(s: Seq<u8>) -> u32
    recommends
        s.len() >= 4,
{
    (s[0] + s[1] * 0x100 + s[2] * 0x1_0000 + s[3] * 0x100_0000) as u32
}

/// The four little-endian bytes of a `u32`, lowest first.
pub open spec fn spec_u8_le(x: u32) -> Seq<u8> {
    seq![
        (x % 0x100) as u8,
        ((x / 0x100) % 0x100) as u8,
        ((x / 0x1_0000) % 0x100) as u8,
        ((x / 0x100_0000) % 0x100) as u8,
    ]
}

/// Reads a `u32` from four little-endian bytes.
pub fn as_u32_le(array: [u8; 4]) -> (r: u32)
    ensures
        r == spec_u32_le(array@),
{
    array[0] as u32 + array[1] as u32 * 0x100 + array[2] as u32 * 0x1_0000 + array[3] as u32
        * 0x100_0000
}

/// Writes a `u32` as four little-endian bytes.
pub fn as_u8_le(x: u32) -> (r: [u8; 4])
    ensures
        r@ == spec_u8_le(x),
{
    let b1: u8 = (x % 0x100) as u8;
    let b2: u8 = ((x / 0x100) % 0x100) as u8;
    let b3: u8 = ((x / 0x1_0000) % 0x100) as u8;
    let b4: u8 = ((x / 0x100_0000) % 0x100) as u8;
    let r = [b1, b2, b3, b4];
    proof {
        assert(r@ =~= spec_u8_le(x));
    }
    r
}

/// The two codecs invert one another: a value written as little-endian
/// bytes and read back is unchanged.
pub proof fn lemma_le_round_trip(x: u32)
    ensures
        spec_u32_le(spec_u8_le(x)) == x,
{
    assert(x % 0x100 + (x / 0x100) % 0x100 * 0x100 + (x / 0x1_0000) % 0x100 * 0x1_0000 + (x
        / 0x100_0000) % 0x100 * 0x100_0000 == x) by (bit_vector);
}

/// The trailer bytes for a given progress count: little-endian `u32`
/// followed by the end marker `AF FE AF FE`.
pub open spec fn spec_trailer(nonces_written: u32) -> Seq<u8> {
    spec_u8_le(nonces_written) + seq![0xAFu8, 0xFEu8, 0xAFu8, 0xFEu8]
}

/// Whether an 8-byte file tail carries the resume end marker.
pub open spec fn spec_has_marker(tail: Seq<u8>) -> bool
    recommends
        tail.len() == 8,
{
    tail[4] == 0xAFu8 && tail[5] == 0xFEu8 && tail[6] == 0xAFu8 && tail[7] == 0xFEu8
}

/// Builds the 8 trailer bytes recording `nonces_written`.
pub fn encode_resume_info(nonces_written: u32) -> (r: Vec<u8>)
    ensures
        r@ == spec_trailer(nonces_written),
{
    let bytes = as_u8_le(nonces_written);
    let mut r: Vec<u8> = Vec::new();
    r.push(bytes[0]);
    r.push(bytes[1]);
    r.push(bytes[2]);
    r.push(bytes[3]);
    r.push(0xAF);
    r.push(0xFE);
    r.push(0xAF);
    r.push(0xFE);
    proof {
        assert(r@ =~= spec_trailer(nonces_written));
    }
    r
}

/// Reads the progress count back from the 8-byte file tail. Returns the
/// recorded count exactly when the end marker is present; a tail without
/// the marker yields `None`.
pub fn decode_resume_info(tail: &Vec<u8>) -> (r: Option<u64>)
    requires
        tail@.len() == 8,
    ensures
        r is Some <==> spec_has_marker(tail@),
        r is Some ==> r->0 == spec_u32_le(tail@) as u64,
{
    if tail[4] == 0xAF && tail[5] == 0xFE && tail[6] == 0xAF && tail[7] == 0xFE {
        let word = as_u32_le([tail[0], tail[1], tail[2], tail[3]]);
        proof {
            assert(seq![tail@[0], tail@[1], tail@[2], tail@[3]][0] == tail@[0]);
        }
        Some(word as u64)
    } else {
        None
    }
}

/// A trailer written for a progress count is decoded back to the same
/// count: writing resume information and reading it again round-trips.
pub proof fn lemma_resume_round_trip(nonces_written: u32)
    ensures
        spec_has_marker(spec_trailer(nonces_written)),
        spec_u32_le(spec_trailer(nonces_written)) == nonces_written,
{
    lemma_le_round_trip(nonces_written);
    assert(spec_trailer(nonces_written).subrange(0, 4) =~= spec_u8_le(nonces_written));
    assert(spec_u32_le(spec_trailer(nonces_written)) == spec_u32_le(spec_u8_le(nonces_written)));
}

} // verus!
