//! Colors with three fixed-point channels.
//!
//! A channel is nominally in `[0, 1]` but nothing clamps it; scaling is the
//! lighting operation, and packing turns a color into the 24-bit integer a
//! framebuffer stores. Packing truncates each channel (no rounding) and
//! clamps it to its 8-bit slot, so out-of-range channels saturate instead of
//! bleeding into their neighbours.

use vstd::prelude::*;

verus! {

use vstd::math::abs;
use crate::fixed::{
    Fx,
    fx_mul_bits,
    tdiv_bits,
    tmod_bits,
    lemma_tdiv_decomp,
    lemma_tdiv_monotone,
    tdiv_i128,
};

/// The 8-bit slot a channel packs to: `floor(c * 255)` clamped to `[0, 255]`.
pub open spec fn channel_byte(bits: int) -> int {
    let v = tdiv_bits(bits * 255, 65536);
    if v < 0 {
        0
    } else if v > 255 {
        255
    } else {
        v
    }
}

/// The 24-bit packed form: red in the high byte, then green, then blue.
pub open spec fn packed_rgb(c: Color) -> int {
    channel_byte(c.r.bits as int) * 0x10000 + channel_byte(c.g.bits as int) * 0x100
        + channel_byte(c.b.bits as int)
}

#[derive(Clone, Copy, Debug, PartialEq, Eq, Structural)]
pub struct Color {
    pub r: Fx,
    pub g: Fx,
    pub b: Fx,
}

impl Color {
    pub fn new(r: Fx, g: Fx, b: Fx) -> (c: Color)
        ensures
            c.r == r,
            c.g == g,
            c.b == b,
    {
        Color { r, g, b }
    }

    pub fn black() -> (c: Color)
        ensures
            c.r.bits == 0,
            c.g.bits == 0,
            c.b.bits == 0,
    {
        Color { r: Fx::zero(), g: Fx::zero(), b: Fx::zero() }
    }

    pub fn red() -> (c: Color)
        ensures
            c.r.bits == 65536,
            c.g.bits == 0,
            c.b.bits == 0,
    {
        Color { r: Fx::one(), g: Fx::zero(), b: Fx::zero() }
    }

    /// Multiply every channel by the same factor (lighting intensity).
    pub fn scale(self, k: Fx) -> (c: Color)
        ensures
            c.r.bits == fx_mul_bits(self.r.bits as int, k.bits as int),
            c.g.bits == fx_mul_bits(self.g.bits as int, k.bits as int),
            c.b.bits == fx_mul_bits(self.b.bits as int, k.bits as int),
    {
        Color { r: self.r.mul(k), g: self.g.mul(k), b: self.b.mul(k) }
    }

    /// Pack to `0xRRGGBB`.
    pub fn to_hex(&self) -> (r: u32)
        ensures
            r as int == packed_rgb(*self),
    {
        let rb = byte_of(self.r);
        let gb = byte_of(self.g);
        let bb = byte_of(self.b);
        rb * 0x10000 + gb * 0x100 + bb
    }
}

fn byte_of(ch: Fx) -> (r: u32)
    ensures
        r as int == channel_byte(ch.bits as int),
        r <= 255,
{
    let p: i128 = (ch.bits as i128) * 255;
    let q = tdiv_i128(p, 65536);
    if q < 0 {
        0
    } else if q > 255 {
        255
    } else {
        q as u32
    }
}

/// Every packed slot is a byte.
pub proof fn lemma_channel_byte_range(a: int)
    ensures
        0 <= channel_byte(a) <= 255,
{
}

/// Packing is order-preserving per channel: raising channels never lowers
/// their 8-bit slots, nor the packed word.
pub proof fn lemma_pack_monotone(c1: Color, c2: Color)
    requires
        c1.r.bits <= c2.r.bits,
        c1.g.bits <= c2.g.bits,
        c1.b.bits <= c2.b.bits,
    ensures
        channel_byte(c1.r.bits as int) <= channel_byte(c2.r.bits as int),
        channel_byte(c1.g.bits as int) <= channel_byte(c2.g.bits as int),
        channel_byte(c1.b.bits as int) <= channel_byte(c2.b.bits as int),
        packed_rgb(c1) <= packed_rgb(c2),
{
    lemma_tdiv_monotone(c1.r.bits * 255, c2.r.bits * 255, 65536);
    lemma_tdiv_monotone(c1.g.bits * 255, c2.g.bits * 255, 65536);
    lemma_tdiv_monotone(c1.b.bits * 255, c2.b.bits * 255, 65536);
}

/// Scaling by `k1` and then by `k2` agrees with scaling once by `k1·k2`
/// up to truncation error: the channels differ by well under three units
/// in the last place. Stated away from the saturation bound (channels and
/// factors of magnitude at most 128).
pub proof fn lemma_scale_then_scale(c: Color, k1: Fx, k2: Fx)
    requires
        -0x80_0000 <= c.r.bits <= 0x80_0000,
        -0x80_0000 <= c.g.bits <= 0x80_0000,
        -0x80_0000 <= c.b.bits <= 0x80_0000,
        -0x80_0000 <= k1.bits <= 0x80_0000,
        -0x80_0000 <= k2.bits <= 0x80_0000,
    ensures
        65536 * abs(
            fx_mul_bits(fx_mul_bits(c.r.bits as int, k1.bits as int), k2.bits as int)
                - fx_mul_bits(c.r.bits as int, fx_mul_bits(k1.bits as int, k2.bits as int)),
        ) < abs(c.r.bits as int) + abs(k2.bits as int) + 2 * 65536,
        65536 * abs(
            fx_mul_bits(fx_mul_bits(c.g.bits as int, k1.bits as int), k2.bits as int)
                - fx_mul_bits(c.g.bits as int, fx_mul_bits(k1.bits as int, k2.bits as int)),
        ) < abs(c.g.bits as int) + abs(k2.bits as int) + 2 * 65536,
        65536 * abs(
            fx_mul_bits(fx_mul_bits(c.b.bits as int, k1.bits as int), k2.bits as int)
                - fx_mul_bits(c.b.bits as int, fx_mul_bits(k1.bits as int, k2.bits as int)),
        ) < abs(c.b.bits as int) + abs(k2.bits as int) + 2 * 65536,
{
    lemma_channel_scale_assoc(c.r.bits as int, k1.bits as int, k2.bits as int);
    lemma_channel_scale_assoc(c.g.bits as int, k1.bits as int, k2.bits as int);
    lemma_channel_scale_assoc(c.b.bits as int, k1.bits as int, k2.bits as int);
}

proof fn lemma_channel_scale_assoc(c: int, k1: int, k2: int)
    requires
        -0x80_0000 <= c <= 0x80_0000,
        -0x80_0000 <= k1 <= 0x80_0000,
        -0x80_0000 <= k2 <= 0x80_0000,
    ensures
        65536 * abs(
            fx_mul_bits(fx_mul_bits(c, k1), k2) - fx_mul_bits(c, fx_mul_bits(k1, k2)),
        ) < abs(c) + abs(k2) + 2 * 65536,
{
    let a1 = c * k1;
    assert(-0x4000_0000_0000 <= c * k1 <= 0x4000_0000_0000) by (nonlinear_arith)
        requires
            -0x80_0000 <= c <= 0x80_0000,
            -0x80_0000 <= k1 <= 0x80_0000,
    ;
    lemma_tdiv_decomp(a1, 65536);
    let va = tdiv_bits(a1, 65536);
    let r1 = tmod_bits(a1, 65536);
    assert(fx_mul_bits(c, k1) == va);

    let a2 = va * k2;
    assert(-0x8000_0000 <= va <= 0x8000_0000);
    assert(-0x4000_0000_0000_0000 <= va * k2 <= 0x4000_0000_0000_0000) by (nonlinear_arith)
        requires
            -0x8000_0000 <= va <= 0x8000_0000,
            -0x80_0000 <= k2 <= 0x80_0000,
    ;
    lemma_tdiv_decomp(a2, 65536);
    let vl = tdiv_bits(a2, 65536);
    let r2 = tmod_bits(a2, 65536);
    assert(fx_mul_bits(fx_mul_bits(c, k1), k2) == vl);

    let b1 = k1 * k2;
    assert(-0x4000_0000_0000 <= k1 * k2 <= 0x4000_0000_0000) by (nonlinear_arith)
        requires
            -0x80_0000 <= k1 <= 0x80_0000,
            -0x80_0000 <= k2 <= 0x80_0000,
    ;
    lemma_tdiv_decomp(b1, 65536);
    let vb = tdiv_bits(b1, 65536);
    let r3 = tmod_bits(b1, 65536);
    assert(fx_mul_bits(k1, k2) == vb);

    let b2 = c * vb;
    assert(-0x8000_0000 <= vb <= 0x8000_0000);
    assert(-0x4000_0000_0000_0000 <= c * vb <= 0x4000_0000_0000_0000) by (nonlinear_arith)
        requires
            -0x80_0000 <= c <= 0x80_0000,
            -0x8000_0000 <= vb <= 0x8000_0000,
    ;
    lemma_tdiv_decomp(b2, 65536);
    let vr = tdiv_bits(b2, 65536);
    let r4 = tmod_bits(b2, 65536);
    assert(fx_mul_bits(c, fx_mul_bits(k1, k2)) == vr);

    assert(65536 * 65536 * (vl - vr) == c * r3 - r1 * k2 + 65536 * (r4 - r2)) by (nonlinear_arith)
        requires
            c * k1 == 65536 * va + r1,
            va * k2 == 65536 * vl + r2,
            k1 * k2 == 65536 * vb + r3,
            c * vb == 65536 * vr + r4,
    ;

    assert(65536 * 65536 * (vl - vr) < 65536 * (abs(c) + abs(k2)) + 2 * 65536 * 65536
        && -(65536 * (abs(c) + abs(k2)) + 2 * 65536 * 65536) < 65536 * 65536 * (vl - vr))
        by (nonlinear_arith)
        requires
            65536 * 65536 * (vl - vr) == c * r3 - r1 * k2 + 65536 * (r4 - r2),
            -65536 < r1 < 65536,
            -65536 < r2 < 65536,
            -65536 < r3 < 65536,
            -65536 < r4 < 65536,
            abs(c) == if c < 0 { -c } else { c },
            abs(k2) == if k2 < 0 { -k2 } else { k2 },
    ;

    assert(65536 * abs(vl - vr) < abs(c) + abs(k2) + 2 * 65536) by (nonlinear_arith)
        requires
            65536 * 65536 * (vl - vr) < 65536 * (abs(c) + abs(k2)) + 2 * 65536 * 65536,
            -(65536 * (abs(c) + abs(k2)) + 2 * 65536 * 65536) < 65536 * 65536 * (vl - vr),
            abs(vl - vr) == if vl - vr < 0 { -(vl - vr) } else { vl - vr },
    ;
}

} // verus!
