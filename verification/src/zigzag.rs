//! Zigzag mapping between unsigned and signed 32-bit integers.
//!
//! The wire format stores signed quantities as unsigned varints by first
//! applying the zigzag transform, which keeps small-magnitude values small:
//! `0, -1, 1, -2, 2, ...` encode as `0, 1, 2, 3, 4, ...`.

use vstd::prelude::*;

verus! {

/// The inverse zigzag transform: even encoded values map to the
/// non-negative integer `v / 2`, odd encoded values map to the negative
/// integer `-(v + 1) / 2`.
pub open spec fn zigzag_decode_spec(v: u32) -> int {
    if v % 2 == 0 {
        v as int / 2
    } else {
        -(v as int / 2) - 1
    }
}

/// The textbook forward zigzag transform, the inverse of
/// [`zigzag_decode_spec`].
pub open spec fn zigzag_encode_spec(x: i32) -> u32 {
    if x >= 0 {
        (2 * x) as u32
    } else {
        (-2 * x - 1) as u32
    }
}

/// Decodes a zigzag-encoded unsigned integer back to the signed integer it
/// stands for.  Total: every 32-bit input decodes.
pub fn zigzag_decode(v: u32) -> (r: i32)
    ensures
        r == zigzag_decode_spec(v),
{
    proof {
        assert(v >> 1 == v / 2) by (bit_vector);
        assert(v & 1 == v % 2) by (bit_vector);
    }
    let half: u32 = v >> 1;
    if v & 1 == 0 {
        half as i32
    } else {
        -(half as i32) - 1
    }
}

/// Law: decoding inverts encoding.  For every signed 32-bit integer `x`,
/// `zigzag_decode_spec(zigzag_encode_spec(x)) == x`.
pub proof fn lemma_zigzag_round_trip(x: i32)
    ensures
        zigzag_decode_spec(zigzag_encode_spec(x)) == x,
{
    if x >= 0 {
        assert(zigzag_encode_spec(x) % 2 == 0);
        assert(zigzag_encode_spec(x) / 2 == x);
    } else {
        assert(zigzag_encode_spec(x) % 2 == 1);
        assert(zigzag_encode_spec(x) / 2 == -x - 1);
    }
}

} // verus!
