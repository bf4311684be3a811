//! Fixed-point quantization of scalar measurements.
//!
//! A scalar measurement (a normalized landmark coordinate or a
//! classification score) is carried as an integer number of fine
//! fixed-point units, `MICRO` units per 1.0. Quantization reduces it to
//! the coarser wire resolution of `SCALE` steps per 1.0 — that is, it
//! divides by `STEP = MICRO / SCALE` rounding to the nearest step, ties
//! away from zero — and the result is truncated to a 32-bit integer.
//! Dequantization multiplies back, so a round trip loses at most half a
//! step, i.e. `0.5 / SCALE` of the measured value.

use vstd::prelude::*;

verus! {

/// Quantized steps per unit value: the wire resolution.
pub const SCALE: i64 = 100000;

/// Fine fixed-point units per unit value: the resolution in which
/// measurements enter the library.
pub const MICRO: i64 = 10000000;

/// Fine units per quantized step (`MICRO / SCALE`).
pub const STEP: i64 = 100;

/// Half a quantized step in fine units: the round-trip error bound.
pub const HALF_STEP: i64 = 50;

/// Largest measurement magnitude (in fine units) whose quantized value
/// still fits in a 32-bit integer: `i32::MAX * STEP`.
pub const COORD_LIMIT: i64 = 214748364700;

/// The two resolutions and the step between them agree: `STEP` steps of
/// the fine resolution make one quantized step, and the error bound is
/// half of one.
pub proof fn lemma_scale_consistency()
    ensures
        STEP * SCALE == MICRO,
        2 * HALF_STEP == STEP,
        COORD_LIMIT == i32::MAX as i64 * STEP,
{
}

/// The quantized value of a measurement of `v` fine units: `v / STEP`
/// rounded to the nearest integer, ties away from zero.
pub open spec fn spec_quantize(v: int) -> int {
    if v >= 0 {
        (v + HALF_STEP) / (STEP as int)
    } else {
        -((-v + HALF_STEP) / (STEP as int))
    }
}

/// A measurement magnitude small enough to quantize without overflow.
pub open spec fn in_coord_range(v: int) -> bool {
    -COORD_LIMIT <= v <= COORD_LIMIT
}

/// Quantize a measurement of `v` fine units to wire resolution.
pub fn quantize(v: i64) -> (q: i32)
    requires
        in_coord_range(v as int),
    ensures
        q == spec_quantize(v as int),
{
    if v >= 0 {
        let m: u64 = v as u64;
        let q: u64 = (m + 50) / 100;
        q as i32
    } else {
        let m: u64 = (-(v as i128)) as u64;
        let q: u64 = (m + 50) / 100;
        (-(q as i64)) as i32
    }
}

/// Map a quantized value back to fine fixed-point units.
pub fn dequantize(q: i32) -> (v: i64)
    ensures
        v == q as int * STEP as int,
{
    (q as i64) * 100
}

/// A quantize/dequantize round trip differs from the original
/// measurement by at most half a quantized step (`HALF_STEP` fine units,
/// i.e. `0.5 / SCALE` of the unit value).
pub proof fn lemma_quantize_round_trip(v: int)
    ensures
        -HALF_STEP <= spec_quantize(v) * STEP - v <= HALF_STEP,
{
    if v >= 0 {
        let q = (v + HALF_STEP) / (STEP as int);
        vstd::arithmetic::div_mod::lemma_fundamental_div_mod(v + HALF_STEP, STEP as int);
        vstd::arithmetic::div_mod::lemma_mod_bound(v + HALF_STEP, STEP as int);
        assert(v + HALF_STEP == STEP * q + (v + HALF_STEP) % (STEP as int));
    } else {
        let q = (-v + HALF_STEP) / (STEP as int);
        vstd::arithmetic::div_mod::lemma_fundamental_div_mod(-v + HALF_STEP, STEP as int);
        vstd::arithmetic::div_mod::lemma_mod_bound(-v + HALF_STEP, STEP as int);
        assert(-v + HALF_STEP == STEP * q + (-v + HALF_STEP) % (STEP as int));
    }
}

} // verus!
