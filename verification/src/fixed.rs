//! Exact fixed-point scalars.
//!
//! A coordinate, color channel or depth is an `Fx`: a signed value in units
//! of 1/65536, kept within `[-FX_MAX, FX_MAX]` by saturation. Every
//! operation states its result exactly, so the rest of the pipeline can be
//! specified bit for bit. Products and quotients truncate toward zero, the
//! way the screen-space math truncates when colors are packed.

use vstd::prelude::*;

verus! {

use vstd::math::abs;
use vstd::arithmetic::div_mod::*;

/// Number of fixed-point units in 1.0.
pub const FX_UNIT: i64 = 65536;

/// Saturation bound: every `Fx` produced by arithmetic stays in
/// `[-FX_MAX, FX_MAX]` (about 2^31 in real terms).
pub const FX_MAX: i64 = 0x8000_0000_0000;

/// Saturate an unbounded value into the representable range.
pub open spec fn clip_bits(v: int) -> int {
    if v < -0x8000_0000_0000 {
        -0x8000_0000_0000
    } else if v > 0x8000_0000_0000 {
        0x8000_0000_0000
    } else {
        v
    }
}

/// Division truncated toward zero (the rounding of a hardware divide),
/// defined as 0 on a zero divisor so that it is total.
pub open spec fn tdiv_bits(a: int, b: int) -> int {
    if b == 0 {
        0
    } else {
        let q = (abs(a) / abs(b)) as int;
        if (a < 0) == (b < 0) {
            q
        } else {
            -q
        }
    }
}

pub open spec fn fx_add_bits(a: int, b: int) -> int {
    clip_bits(a + b)
}

pub open spec fn fx_sub_bits(a: int, b: int) -> int {
    clip_bits(a - b)
}

pub open spec fn fx_neg_bits(a: int) -> int {
    clip_bits(-a)
}

pub open spec fn fx_mul_bits(a: int, b: int) -> int {
    clip_bits(tdiv_bits(a * b, 65536))
}

pub open spec fn fx_div_bits(a: int, b: int) -> int {
    clip_bits(tdiv_bits(a * 65536, b))
}

/// Saturate to the `i32` range, as a screen coordinate cast does.
pub open spec fn sat_i32(v: int) -> int {
    if v < -0x8000_0000 {
        -0x8000_0000
    } else if v > 0x7FFF_FFFF {
        0x7FFF_FFFF
    } else {
        v
    }
}

/// Largest integer at or below the value, saturated to `i32`.
pub open spec fn fx_floor_bits(bits: int) -> int {
    sat_i32(bits / 65536)
}

/// Smallest integer at or above the value, saturated to `i32`.
pub open spec fn fx_ceil_bits(bits: int) -> int {
    sat_i32((bits + 65535) / 65536)
}

fn clip_i128(v: i128) -> (r: i64)
    ensures
        r as int == clip_bits(v as int),
{
    if v < -0x8000_0000_0000i128 {
        -0x8000_0000_0000i64
    } else if v > 0x8000_0000_0000i128 {
        0x8000_0000_0000i64
    } else {
        v as i64
    }
}

pub(crate) fn tdiv_i128(a: i128, b: i128) -> (r: i128)
    requires
        b != 0,
        i128::MIN < a,
        i128::MIN < b,
    ensures
        r as int == tdiv_bits(a as int, b as int),
{
    let ua: u128 = if a < 0 {
        (-a) as u128
    } else {
        a as u128
    };
    let ub: u128 = if b < 0 {
        (-b) as u128
    } else {
        b as u128
    };
    let q: u128 = ua / ub;
    proof {
        lemma_div_is_ordered_by_denominator(ua as int, 1, ub as int);
    }
    if (a < 0) != (b < 0) {
        -(q as i128)
    } else {
        q as i128
    }
}

/// A fixed-point scalar: `bits` counts units of 1/65536.
#[derive(Clone, Copy, Debug, PartialEq, Eq, Structural)]
pub struct Fx {
    pub bits: i64,
}

impl Fx {
    pub fn zero() -> (r: Fx)
        ensures
            r.bits == 0,
    {
        Fx { bits: 0 }
    }

    pub fn one() -> (r: Fx)
        ensures
            r.bits == 65536,
    {
        Fx { bits: 65536 }
    }

    /// The value `v`, exactly.
    pub fn from_int(v: i32) -> (r: Fx)
        ensures
            r.bits == v * 65536,
    {
        Fx { bits: (v as i64) * 65536 }
    }

    /// A raw bit pattern; `from_bits(b).bits == b` for every `b`.
    pub fn from_bits(bits: i64) -> (r: Fx)
        ensures
            r.bits == bits,
    {
        Fx { bits }
    }

    /// The ratio `num/den`, truncated toward zero at the last bit.
    pub fn from_ratio(num: i32, den: i32) -> (r: Fx)
        requires
            den != 0,
        ensures
            r.bits == fx_div_bits(num * 65536, den * 65536),
    {
        let n = Fx::from_int(num);
        let d = Fx::from_int(den);
        n.div(d)
    }

    pub fn add(self, o: Fx) -> (r: Fx)
        ensures
            r.bits == fx_add_bits(self.bits as int, o.bits as int),
    {
        Fx { bits: clip_i128(self.bits as i128 + o.bits as i128) }
    }

    pub fn sub(self, o: Fx) -> (r: Fx)
        ensures
            r.bits == fx_sub_bits(self.bits as int, o.bits as int),
    {
        Fx { bits: clip_i128(self.bits as i128 - o.bits as i128) }
    }

    pub fn neg(self) -> (r: Fx)
        ensures
            r.bits == fx_neg_bits(self.bits as int),
    {
        Fx { bits: clip_i128(-(self.bits as i128)) }
    }

    pub fn mul(self, o: Fx) -> (r: Fx)
        ensures
            r.bits == fx_mul_bits(self.bits as int, o.bits as int),
    {
        proof {
            lemma_i64_product_fits(self.bits as int, o.bits as int);
        }
        let p: i128 = (self.bits as i128) * (o.bits as i128);
        Fx { bits: clip_i128(tdiv_i128(p, 65536)) }
    }

    pub fn div(self, o: Fx) -> (r: Fx)
        requires
            o.bits != 0,
        ensures
            r.bits == fx_div_bits(self.bits as int, o.bits as int),
    {
        let p: i128 = (self.bits as i128) * 65536;
        Fx { bits: clip_i128(tdiv_i128(p, o.bits as i128)) }
    }

    pub fn min(self, o: Fx) -> (r: Fx)
        ensures
            r.bits == if self.bits <= o.bits { self.bits } else { o.bits },
    {
        if self.bits <= o.bits {
            self
        } else {
            o
        }
    }

    pub fn max(self, o: Fx) -> (r: Fx)
        ensures
            r.bits == if self.bits >= o.bits { self.bits } else { o.bits },
    {
        if self.bits >= o.bits {
            self
        } else {
            o
        }
    }

    /// Floor of the value as a screen coordinate, saturated to `i32`.
    pub fn floor_px(self) -> (r: i32)
        ensures
            r as int == fx_floor_bits(self.bits as int),
    {
        let f = floor_div_unit(self.bits as i128);
        saturate_i32(f)
    }

    /// Ceiling of the value as a screen coordinate, saturated to `i32`.
    pub fn ceil_px(self) -> (r: i32)
        ensures
            r as int == fx_ceil_bits(self.bits as int),
    {
        let f = floor_div_unit(self.bits as i128 + 65535);
        saturate_i32(f)
    }
}

/// The product of two `i64` values fits comfortably inside `i128`.
proof fn lemma_i64_product_fits(a: int, b: int) by (nonlinear_arith)
    requires
        -0x8000_0000_0000_0000 <= a < 0x8000_0000_0000_0000,
        -0x8000_0000_0000_0000 <= b < 0x8000_0000_0000_0000,
    ensures
        -0x4000_0000_0000_0000_0000_0000_0000_0000 <= a * b
            <= 0x4000_0000_0000_0000_0000_0000_0000_0000,
{
}

/// Floor division of `v` by 65536 (truncation corrected for negatives).
fn floor_div_unit(v: i128) -> (r: i128)
    requires
        i128::MIN + 65536 < v,
    ensures
        r == v as int / 65536,
{
    let t = tdiv_i128(v, 65536);
    proof {
        lemma_fundamental_div_mod(abs(v as int) as int, 65536);
        lemma_fundamental_div_mod(v as int, 65536);
    }
    if v < 0 && t * 65536 != v {
        t - 1
    } else {
        t
    }
}

/// Truncated remainder: what `tdiv_bits` leaves over.
pub open spec fn tmod_bits(a: int, b: int) -> int {
    a - b * tdiv_bits(a, b)
}

/// `tdiv_bits(_, d)` decomposes its argument with a remainder strictly
/// smaller than `d` in magnitude and carrying the argument's sign.
pub proof fn lemma_tdiv_decomp(a: int, d: int)
    requires
        d > 0,
    ensures
        a == d * tdiv_bits(a, d) + tmod_bits(a, d),
        -d < tmod_bits(a, d) < d,
        a >= 0 ==> tmod_bits(a, d) >= 0,
        a <= 0 ==> tmod_bits(a, d) <= 0,
{
    if a >= 0 {
        lemma_fundamental_div_mod(a, d);
        lemma_mod_division_less_than_divisor(a, d);
        assert(tdiv_bits(a, d) == a / d);
    } else {
        let q = (-a) / d;
        lemma_fundamental_div_mod(-a, d);
        lemma_mod_division_less_than_divisor(-a, d);
        assert(tdiv_bits(a, d) == -q);
        assert(d * tdiv_bits(a, d) == -(d * q)) by (nonlinear_arith)
            requires
                tdiv_bits(a, d) == -q,
        ;
        assert(-a == d * q + ((-a) % d));
    }
}

/// Truncated division by a positive divisor never decreases when the
/// numerator grows.
pub proof fn lemma_tdiv_monotone(a: int, b: int, d: int)
    requires
        a <= b,
        d > 0,
    ensures
        tdiv_bits(a, d) <= tdiv_bits(b, d),
{
    if a >= 0 {
        lemma_div_is_ordered(a, b, d);
    } else if b < 0 {
        lemma_div_is_ordered(-b, -a, d);
    } else {
        lemma_div_pos_is_pos(b, d);
        lemma_div_pos_is_pos(-a, d);
    }
}

/// Largest natural number whose square is at or below `v`.
pub open spec fn sqrt_floor(v: nat) -> nat
    decreases v,
{
    if v == 0 {
        0
    } else {
        let p = sqrt_floor((v - 1) as nat);
        if (p + 1) * (p + 1) <= v {
            p + 1
        } else {
            p
        }
    }
}

pub proof fn lemma_sqrt_floor_bounds(v: nat)
    ensures
        sqrt_floor(v) * sqrt_floor(v) <= v,
        v < (sqrt_floor(v) + 1) * (sqrt_floor(v) + 1),
    decreases v,
{
    if v == 0 {
        assert(sqrt_floor(0) == 0);
        assert(sqrt_floor(v) * sqrt_floor(v) <= v);
        assert(v < (sqrt_floor(v) + 1) * (sqrt_floor(v) + 1)) by (nonlinear_arith)
            requires
                v == 0,
                sqrt_floor(v) == 0,
        ;
    } else {
        lemma_sqrt_floor_bounds((v - 1) as nat);
        let p = sqrt_floor((v - 1) as nat);
        let s = sqrt_floor(v);
        if (p + 1) * (p + 1) <= v {
            assert(s == p + 1);
            assert(v <= (p + 1) * (p + 1));
            assert(v < (p + 2) * (p + 2)) by (nonlinear_arith)
                requires
                    v <= (p + 1) * (p + 1),
            ;
            assert(s * s == (p + 1) * (p + 1)) by (nonlinear_arith)
                requires
                    s == p + 1,
            ;
            assert((s + 1) * (s + 1) == (p + 2) * (p + 2)) by (nonlinear_arith)
                requires
                    s == p + 1,
            ;
            assert(s * s <= v);
            assert(v < (s + 1) * (s + 1));
        } else {
            assert(s == p);
            assert(s * s <= v - 1);
            assert((s + 1) * (s + 1) == (p + 1) * (p + 1));
            assert(v < (s + 1) * (s + 1));
        }
    }
}

pub proof fn lemma_sqrt_floor_unique(v: nat, r: nat)
    requires
        r * r <= v,
        v < (r + 1) * (r + 1),
    ensures
        r == sqrt_floor(v),
{
    lemma_sqrt_floor_bounds(v);
    let s = sqrt_floor(v);
    if r < s {
        assert((r + 1) * (r + 1) <= s * s) by (nonlinear_arith)
            requires
                r + 1 <= s,
        ;
    } else if s < r {
        assert((s + 1) * (s + 1) <= r * r) by (nonlinear_arith)
            requires
                s + 1 <= r,
        ;
    }
}

/// Integer square root by bisection.
pub fn isqrt_u64(v: u64) -> (r: u64)
    ensures
        r as nat == sqrt_floor(v as nat),
        r * r <= v,
        r <= 0xFFFF_FFFF,
{
    let mut lo: u64 = 0;
    let mut hi: u64 = 0x1_0000_0000;
    while hi - lo > 1
        invariant
            lo < hi <= 0x1_0000_0000,
            (lo as int) * (lo as int) <= v as int,
            (v as int) < (hi as int) * (hi as int),
        decreases hi - lo,
    {
        let mid = lo + (hi - lo) / 2;
        proof {
            assert((mid as int) * (mid as int) <= 0x1_0000_0000_0000_0000) by (nonlinear_arith)
                requires
                    0 <= mid as int <= 0x1_0000_0000,
            ;
        }
        let sq: u128 = (mid as u128) * (mid as u128);
        if sq <= v as u128 {
            lo = mid;
        } else {
            hi = mid;
        }
    }
    proof {
        lemma_sqrt_floor_unique(v as nat, lo as nat);
    }
    lo
}

fn saturate_i32(v: i128) -> (r: i32)
    ensures
        r as int == sat_i32(v as int),
{
    if v < -0x8000_0000i128 {
        i32::MIN
    } else if v > 0x7FFF_FFFFi128 {
        i32::MAX
    } else {
        v as i32
    }
}

} // verus!
