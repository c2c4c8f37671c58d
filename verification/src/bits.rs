//! Bit-range utilities shared by the descriptor encodings.
//!
//! Both descriptor tables pack several named fields into 16- or 64-bit
//! words.  The functions here read and write a contiguous range of bits
//! `lo..hi` (half-open) of a word; every caller states its layout in terms
//! of the spec-level forms of these operations.

use vstd::prelude::*;

verus! {

/// The unshifted mask for a field occupying bits `lo..hi` of a 64-bit word.
pub open spec fn spec_mask64(lo: u64, hi: u64) -> u64
    recommends
        lo < hi <= 64,
        hi - lo < 64,
{
    ((1u64 << ((hi - lo) as u64)) - 1) as u64
}

/// The value of bits `lo..hi` of `x`, shifted down to bit 0.
pub open spec fn spec_get_bits64(x: u64, lo: u64, hi: u64) -> u64
    recommends
        lo < hi <= 64,
        hi - lo < 64,
{
    (x >> lo) & spec_mask64(lo, hi)
}

/// `x` with bits `lo..hi` replaced by `v` and all other bits kept.
pub open spec fn spec_set_bits64(x: u64, lo: u64, hi: u64, v: u64) -> u64
    recommends
        lo < hi <= 64,
        hi - lo < 64,
        v <= spec_mask64(lo, hi),
{
    (x & !(spec_mask64(lo, hi) << lo)) | (v << lo)
}

/// Reads the field at bits `lo..hi` of `x`.
pub fn get_bits64(x: u64, lo: u64, hi: u64) -> (r: u64)
    requires
        lo < hi <= 64,
        hi - lo < 64,
    ensures
        r == spec_get_bits64(x, lo, hi),
{
    let k: u64 = hi - lo;
    proof {
        assert(1u64 << k >= 1) by (bit_vector)
            requires
                k < 64,
        ;
    }
    (x >> lo) & ((1u64 << k) - 1)
}

/// Writes `v` into the field at bits `lo..hi` of `x`.
pub fn set_bits64(x: u64, lo: u64, hi: u64, v: u64) -> (r: u64)
    requires
        lo < hi <= 64,
        hi - lo < 64,
        v <= spec_mask64(lo, hi),
    ensures
        r == spec_set_bits64(x, lo, hi, v),
{
    let k: u64 = hi - lo;
    proof {
        assert(1u64 << k >= 1) by (bit_vector)
            requires
                k < 64,
        ;
    }
    let mask: u64 = (1u64 << k) - 1;
    (x & !(mask << lo)) | (v << lo)
}

/// A field read always fits below the field's mask.
pub proof fn lemma_get_bits64_bounded(x: u64, lo: u64, hi: u64)
    by (bit_vector)
    requires
        lo < hi <= 64,
        hi - lo < 64,
    ensures
        spec_get_bits64(x, lo, hi) <= spec_mask64(lo, hi),
{
}

/// The single bit at position `i` of a 16-bit word.
pub open spec fn spec_get_bit16(x: u16, i: u16) -> bool
    recommends
        i < 16,
{
    (x >> i) & 1 == 1
}

/// `x` with bit `i` forced to `b` and all other bits kept.
pub open spec fn spec_set_bit16(x: u16, i: u16, b: bool) -> u16
    recommends
        i < 16,
{
    if b {
        x | (1u16 << i)
    } else {
        x & !(1u16 << i)
    }
}

/// The unshifted mask for a field occupying bits `lo..hi` of a 16-bit word.
pub open spec fn spec_mask16(lo: u16, hi: u16) -> u16
    recommends
        lo < hi <= 16,
        hi - lo < 16,
{
    ((1u16 << ((hi - lo) as u16)) - 1) as u16
}

/// The value of bits `lo..hi` of a 16-bit word, shifted down to bit 0.
pub open spec fn spec_get_bits16(x: u16, lo: u16, hi: u16) -> u16
    recommends
        lo < hi <= 16,
        hi - lo < 16,
{
    (x >> lo) & spec_mask16(lo, hi)
}

/// A 16-bit word with bits `lo..hi` replaced by `v` and all other bits kept.
pub open spec fn spec_set_bits16(x: u16, lo: u16, hi: u16, v: u16) -> u16
    recommends
        lo < hi <= 16,
        hi - lo < 16,
        v <= spec_mask16(lo, hi),
{
    (x & !(spec_mask16(lo, hi) << lo)) | (v << lo)
}

/// Reads bit `i` of `x`.
pub fn get_bit16(x: u16, i: u16) -> (r: bool)
    requires
        i < 16,
    ensures
        r == spec_get_bit16(x, i),
{
    (x >> i) & 1 == 1
}

/// Sets bit `i` of `x` to `b`.
pub fn set_bit16(x: u16, i: u16, b: bool) -> (r: u16)
    requires
        i < 16,
    ensures
        r == spec_set_bit16(x, i, b),
{
    if b {
        x | (1u16 << i)
    } else {
        x & !(1u16 << i)
    }
}

/// Writes `v` into the field at bits `lo..hi` of `x`.
pub fn set_bits16(x: u16, lo: u16, hi: u16, v: u16) -> (r: u16)
    requires
        lo < hi <= 16,
        hi - lo < 16,
        v <= spec_mask16(lo, hi),
    ensures
        r == spec_set_bits16(x, lo, hi, v),
{
    let k: u16 = hi - lo;
    proof {
        assert(1u16 << k >= 1) by (bit_vector)
            requires
                k < 16,
        ;
    }
    let mask: u16 = (1u16 << k) - 1;
    (x & !(mask << lo)) | (v << lo)
}

/// Reading a 16-bit field straight after writing it returns the written value.
pub proof fn lemma_set_then_get_bits16(x: u16, lo: u16, hi: u16, v: u16)
    by (bit_vector)
    requires
        lo < hi <= 16,
        hi - lo < 16,
        v <= spec_mask16(lo, hi),
    ensures
        spec_get_bits16(spec_set_bits16(x, lo, hi, v), lo, hi) == v,
{
}

/// Reading a bit straight after setting it returns the written value.
pub proof fn lemma_set_then_get_bit16(x: u16, i: u16, b: bool)
    by (bit_vector)
    requires
        i < 16,
    ensures
        spec_get_bit16(spec_set_bit16(x, i, b), i) == b,
{
}

} // verus!
