use rasterizer::color::Color;
use rasterizer::fixed::{Fx, FX_MAX, FX_UNIT};

#[test]
fn black_and_red_pack_exactly() {
    assert_eq!(Color::black().to_hex(), 0x000000);
    assert_eq!(Color::red().to_hex(), 0xFF0000);
}

#[test]
fn half_gray_packs_by_truncation() {
    // 0.5 * 255 = 127.5, truncated to 127 in every slot.
    let half = Fx::from_ratio(1, 2);
    let c = Color::new(half, half, half);
    assert_eq!(c.to_hex(), 0x7F7F7F);
}

#[test]
fn out_of_range_channels_saturate() {
    let c = Color::new(Fx::from_int(2), Fx::from_int(-1), Fx::zero());
    assert_eq!(c.to_hex(), 0xFF0000);
}

#[test]
fn scale_multiplies_every_channel() {
    let c = Color::new(Fx::one(), Fx::from_ratio(1, 2), Fx::from_ratio(1, 4));
    let s = c.scale(Fx::from_ratio(1, 2));
    assert_eq!(s.r.bits, FX_UNIT / 2);
    assert_eq!(s.g.bits, FX_UNIT / 4);
    assert_eq!(s.b.bits, FX_UNIT / 8);
}

#[test]
fn scale_twice_matches_scale_by_product() {
    // Powers of two keep the fixed-point products exact, so the two ways
    // of scaling agree bit for bit here.
    let c = Color::new(Fx::from_ratio(1, 2), Fx::from_ratio(1, 4), Fx::one());
    let k1 = Fx::from_ratio(1, 2);
    let k2 = Fx::from_ratio(1, 2);
    let twice = c.scale(k1).scale(k2);
    let once = c.scale(k1.mul(k2));
    assert_eq!(twice.r.bits, once.r.bits);
    assert_eq!(twice.g.bits, once.g.bits);
    assert_eq!(twice.b.bits, once.b.bits);
}

#[test]
fn scale_twice_is_within_tolerance_on_awkward_factors() {
    // 1/3 and 1/7 truncate; the two orders must stay within a few
    // low-order bits of each other (the proved bound is under 3 units).
    let c = Color::new(Fx::from_ratio(2, 3), Fx::from_ratio(1, 3), Fx::from_ratio(5, 7));
    let k1 = Fx::from_ratio(1, 3);
    let k2 = Fx::from_ratio(1, 7);
    let twice = c.scale(k1).scale(k2);
    let once = c.scale(k1.mul(k2));
    assert!((twice.r.bits - once.r.bits).abs() <= 3);
    assert!((twice.g.bits - once.g.bits).abs() <= 3);
    assert!((twice.b.bits - once.b.bits).abs() <= 3);
}

#[test]
fn pack_is_monotone_in_each_channel() {
    let lo = Color::new(Fx::from_ratio(3, 10), Fx::from_ratio(1, 2), Fx::zero());
    let hi = Color::new(Fx::from_ratio(6, 10), Fx::from_ratio(1, 2), Fx::zero());
    let lo_red = (lo.to_hex() >> 16) & 0xFF;
    let hi_red = (hi.to_hex() >> 16) & 0xFF;
    assert!(lo_red <= hi_red);
    // Equal inputs pack equal: within one truncation step the slot may
    // stay put.
    let a = Color::new(Fx::from_bits(32768), Fx::zero(), Fx::zero());
    let b = Color::new(Fx::from_bits(32769), Fx::zero(), Fx::zero());
    let a_red = (a.to_hex() >> 16) & 0xFF;
    let b_red = (b.to_hex() >> 16) & 0xFF;
    assert!(a_red <= b_red);
}

#[test]
fn fx_arithmetic_is_exact_and_saturating() {
    assert_eq!(Fx::from_int(3).add(Fx::from_int(4)).bits, 7 * FX_UNIT);
    assert_eq!(Fx::from_int(3).mul(Fx::from_int(4)).bits, 12 * FX_UNIT);
    assert_eq!(Fx::from_int(1).div(Fx::from_int(3)).bits, 21845);
    assert_eq!(Fx::from_int(-7).div(Fx::from_int(2)).bits, -7 * FX_UNIT / 2);
    assert_eq!(Fx::from_bits(FX_MAX).add(Fx::one()).bits, FX_MAX);
    assert_eq!(Fx::from_bits(-FX_MAX).sub(Fx::one()).bits, -FX_MAX);
}

#[test]
fn fx_floor_and_ceil_handle_negatives() {
    let pos = Fx::from_ratio(5, 2);
    assert_eq!(pos.floor_px(), 2);
    assert_eq!(pos.ceil_px(), 3);
    let neg = Fx::from_ratio(-5, 2);
    assert_eq!(neg.floor_px(), -3);
    assert_eq!(neg.ceil_px(), -2);
    let whole = Fx::from_int(4);
    assert_eq!(whole.floor_px(), 4);
    assert_eq!(whole.ceil_px(), 4);
}

#[test]
fn isqrt_matches_exact_roots() {
    assert_eq!(rasterizer::fixed::isqrt_u64(0), 0);
    assert_eq!(rasterizer::fixed::isqrt_u64(1), 1);
    assert_eq!(rasterizer::fixed::isqrt_u64(3), 1);
    assert_eq!(rasterizer::fixed::isqrt_u64(4), 2);
    assert_eq!(rasterizer::fixed::isqrt_u64(65536 * 65536), 65536);
    assert_eq!(rasterizer::fixed::isqrt_u64(1u64 << 63), 3037000499);
}
