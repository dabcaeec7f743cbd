//! BT.601 limited-range conversion of one YUV sample triple to RGB.
//!
//! The functions here are the mathematical definition. They work on
//! unbounded integers; `/ 256` is floor division, which is what an
//! arithmetic shift right by eight bits computes.

use vstd::prelude::*;

verus! {

/// `x` limited to the range of a byte: `max(0, min(255, x))`.
pub open spec fn clamp_byte(x: int) -> int {
    if x < 0 {
        0
    } else if x > 255 {
        255
    } else {
        x
    }
}

/// The scaled luma term `298 * (y - 16) + 128` that all three channels share.
pub open spec fn luma_term(y: u8) -> int {
    298 * (y as int - 16) + 128
}

/// The red channel of the sample `(y, _, v)`.
pub open spec fn red(y: u8, v: u8) -> int {
    clamp_byte((luma_term(y) + 409 * (v as int - 128)) / 256)
}

/// The green channel of the sample `(y, u, v)`.
pub open spec fn green(y: u8, u: u8, v: u8) -> int {
    clamp_byte((luma_term(y) - 100 * (u as int - 128) - 208 * (v as int - 128)) / 256)
}

/// The blue channel of the sample `(y, u, _)`.
pub open spec fn blue(y: u8, u: u8) -> int {
    clamp_byte((luma_term(y) + 516 * (u as int - 128)) / 256)
}

/// Channel `c` of the RGBA pixel for the sample `(y, u, v)`:
/// 0 is red, 1 green, 2 blue, and 3 the alpha channel, always opaque.
pub open spec fn channel(y: u8, u: u8, v: u8, c: int) -> int {
    if c == 0 {
        red(y, v)
    } else if c == 1 {
        green(y, u, v)
    } else if c == 2 {
        blue(y, u)
    } else {
        255
    }
}

/// The RGBA pixel for the sample `(y, u, v)` as one 32-bit word whose bytes,
/// in little-endian order, are R, G, B, A.
pub open spec fn rgba_word(y: u8, u: u8, v: u8) -> int {
    red(y, v) + 256 * green(y, u, v) + 65536 * blue(y, u) + 16777216 * 255
}

/// Nominal black, luma 16 with neutral chroma, is the pixel `(0, 0, 0, 255)`.
pub proof fn lemma_black(c: int)
    requires
        0 <= c < 4,
    ensures
        channel(16, 128, 128, c) == if c == 3 { 255int } else { 0int },
{
}

/// Nominal white, luma 235 with neutral chroma, is the pixel
/// `(255, 255, 255, 255)`.
pub proof fn lemma_white(c: int)
    requires
        0 <= c < 4,
    ensures
        channel(235, 128, 128, c) == 255,
{
}

} // verus!
