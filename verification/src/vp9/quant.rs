//! Quantizer steps.
use vstd::prelude::*;

use crate::vp9::data::{AC_QLOOKUP, DC_QLOOKUP};

verus! {

/// Row of the quantizer tables for a bit depth: 8, 10 or 12 bits.
pub open spec fn depth_row(bit_depth: u8) -> int {
    if bit_depth == 10 {
        1
    } else if bit_depth == 12 {
        2
    } else {
        0
    }
}

fn bpp_index(bit_depth: u8) -> (r: usize)
    ensures
        r == depth_row(bit_depth),
{
    match bit_depth {
        10 => 1,
        12 => 2,
        _ => 0,
    }
}

/// `base + delta`, brought into `0..=255`.
pub open spec fn clamp_q_spec(base: u8, delta: i8) -> int {
    let s = base + delta;
    if s < 0 {
        0
    } else if s > 255 {
        255
    } else {
        s
    }
}

fn clamp_q(base: u8, delta: i8) -> (r: usize)
    ensures
        r == clamp_q_spec(base, delta),
        r <= 255,
{
    let s: i16 = base as i16 + delta as i16;
    if s < 0 {
        0
    } else if s > 255 {
        255
    } else {
        s as usize
    }
}

/// The step of the first coefficient.
pub open spec fn dc_quant_spec(q_idx: u8, delta: i8, bit_depth: u8) -> i16 {
    DC_QLOOKUP@[depth_row(bit_depth)]@[clamp_q_spec(q_idx, delta)]
}

/// The step of the other coefficients.
pub open spec fn ac_quant_spec(q_idx: u8, delta: i8, bit_depth: u8) -> i16 {
    AC_QLOOKUP@[depth_row(bit_depth)]@[clamp_q_spec(q_idx, delta)]
}

/// The step of the first coefficient for an index, a difference and a bit depth.
pub fn get_dc_quant(q_idx: u8, delta: i8, bit_depth: u8) -> (r: i16)
    ensures
        r == dc_quant_spec(q_idx, delta, bit_depth),
{
    DC_QLOOKUP[bpp_index(bit_depth)][clamp_q(q_idx, delta)]
}

/// The step of the other coefficients for an index, a difference and a bit depth.
pub fn get_ac_quant(q_idx: u8, delta: i8, bit_depth: u8) -> (r: i16)
    ensures
        r == ac_quant_spec(q_idx, delta, bit_depth),
{
    AC_QLOOKUP[bpp_index(bit_depth)][clamp_q(q_idx, delta)]
}

/// An index that a difference takes out of the table counts as its end.
pub proof fn law_quant_index_is_clamped(q_idx: u8, delta: i8, bit_depth: u8)
    ensures
        q_idx + delta <= 0 ==> dc_quant_spec(q_idx, delta, bit_depth) == dc_quant_spec(
            0,
            0,
            bit_depth,
        ),
        q_idx + delta >= 255 ==> dc_quant_spec(q_idx, delta, bit_depth) == dc_quant_spec(
            255,
            0,
            bit_depth,
        ),
        q_idx + delta <= 0 ==> ac_quant_spec(q_idx, delta, bit_depth) == ac_quant_spec(
            0,
            0,
            bit_depth,
        ),
        q_idx + delta >= 255 ==> ac_quant_spec(q_idx, delta, bit_depth) == ac_quant_spec(
            255,
            0,
            bit_depth,
        ),
{
}

} // verus!
