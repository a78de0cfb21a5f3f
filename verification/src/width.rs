//! Resolving a bit width to its storage strategy: the native storage integer
//! it is packed into, and whether a bit-count-tagged bounded wrapper is needed
//! around it.

use vstd::arithmetic::power2::{lemma2_to64, lemma_pow2_strictly_increases, lemma_pow2_unfold, pow2};
use vstd::prelude::*;

verus! {

/// How values of a given bit width are stored: the width itself, the number
/// of bits of the native storage integer, and whether construction must go
/// through the bounded wrapper.
#[derive(Clone, Copy, Debug, PartialEq, Eq, Structural)]
pub struct WidthProfile {
    pub bit_count: u8,
    pub storage_bits: u8,
    pub needs_bounding: bool,
}

/// The number of bits of the smallest native integer that holds `w` bits.
pub open spec fn storage_of(w: nat) -> nat {
    if w <= 8 {
        8
    } else if w <= 16 {
        16
    } else if w <= 32 {
        32
    } else {
        64
    }
}

/// Whether `w` lands exactly on a native integer width.
pub open spec fn native_width(w: nat) -> bool {
    w == 8 || w == 16 || w == 32 || w == 64
}

/// Maps a bit width to its storage strategy. A width landing exactly on a
/// native integer needs no wrapper; every other width is wrapped in a bounded
/// integer that rejects out-of-range construction.
pub fn resolve_width(bit_count: u8) -> (r: WidthProfile)
    requires
        1 <= bit_count <= 64,
    ensures
        r.bit_count == bit_count,
        r.storage_bits == storage_of(bit_count as nat),
        r.needs_bounding == !native_width(bit_count as nat),
        bit_count <= r.storage_bits,
{
    let storage_bits: u8 = if bit_count <= 8 {
        8
    } else if bit_count <= 16 {
        16
    } else if bit_count <= 32 {
        32
    } else {
        64
    };
    let needs_bounding = !(bit_count == 8 || bit_count == 16 || bit_count == 32 || bit_count
        == 64);
    WidthProfile { bit_count, storage_bits, needs_bounding }
}

/// Two to the power `w` does not pass two to the power 64 while `w <= 64`.
pub proof fn lemma_pow2_within_64(w: nat)
    requires
        w <= 64,
    ensures
        pow2(w) <= 0x10000000000000000,
{
    lemma2_to64();
    if w < 64 {
        lemma_pow2_strictly_increases(w, 64);
    }
}

/// Two to the power `w`, exactly; wide enough that even `w == 64` is held
/// as a value rather than an overflow.
pub fn pow2_u128(w: u8) -> (r: u128)
    requires
        w <= 64,
    ensures
        r == pow2(w as nat),
{
    proof {
        lemma2_to64();
    }
    let mut r: u128 = 1;
    let mut i: u8 = 0;
    while i < w
        invariant
            i <= w <= 64,
            r == pow2(i as nat),
        decreases w - i,
    {
        proof {
            lemma_pow2_unfold((i + 1) as nat);
            lemma_pow2_within_64((i + 1) as nat);
        }
        r = r * 2;
        i = i + 1;
    }
    r
}

} // verus!
