//! Fixed-point scalar arithmetic: exact expected values.

use skelanim::fx::{
    fx_add, fx_clamp, fx_div, fx_from_f32_bits, fx_from_int, fx_inverse_lerp, fx_lerp, fx_mul,
    fx_neg, fx_rem, fx_sub, Fx, FX_MAX_BITS, FX_MIN_BITS, FX_ONE,
};

fn fx(bits: i64) -> Fx {
    Fx { bits }
}

#[test]
fn add_sub_mul_div_exact() {
    assert_eq!(fx_add(fx(FX_ONE), fx(FX_ONE)).bits, 2 * FX_ONE);
    assert_eq!(fx_sub(fx(FX_ONE), fx(3 * FX_ONE)).bits, -2 * FX_ONE);
    // 1.5 * 2 = 3
    assert_eq!(fx_mul(fx(98304), fx(131072)).bits, 196608);
    // 3 / 2 = 1.5
    assert_eq!(fx_div(fx(196608), fx(131072)).bits, 98304);
    // division truncates toward zero, also for negatives
    assert_eq!(fx_div(fx(-196608), fx(131072)).bits, -98304);
    assert_eq!(fx_mul(fx(-98304), fx(131072)).bits, -196608);
}

#[test]
fn saturation_is_symmetric() {
    assert_eq!(fx_add(fx(FX_MAX_BITS), fx(FX_ONE)).bits, FX_MAX_BITS);
    assert_eq!(fx_sub(fx(FX_MIN_BITS), fx(FX_ONE)).bits, FX_MIN_BITS);
    assert_eq!(fx_neg(fx(FX_MAX_BITS)).bits, FX_MIN_BITS);
    assert_eq!(fx_neg(fx(FX_MIN_BITS)).bits, FX_MAX_BITS);
}

#[test]
fn division_by_zero_yields_zero() {
    assert_eq!(fx_div(fx(196608), fx(0)).bits, 0);
    assert_eq!(fx_rem(fx(196608), fx(0)).bits, 0);
}

#[test]
fn lerp_and_inverse_lerp() {
    // lerp(1, 3, 0.5) = 2
    assert_eq!(fx_lerp(fx(FX_ONE), fx(3 * FX_ONE), fx(32768)).bits, 2 * FX_ONE);
    // endpoints exact
    assert_eq!(fx_lerp(fx(FX_ONE), fx(3 * FX_ONE), fx(0)).bits, FX_ONE);
    assert_eq!(fx_lerp(fx(FX_ONE), fx(3 * FX_ONE), fx(FX_ONE)).bits, 3 * FX_ONE);
    // inverse_lerp(1, 3, 2) = 0.5
    assert_eq!(fx_inverse_lerp(fx(FX_ONE), fx(3 * FX_ONE), fx(2 * FX_ONE)).bits, 32768);
    // degenerate bracket resolves to 0, holding the left value
    assert_eq!(fx_inverse_lerp(fx(FX_ONE), fx(FX_ONE), fx(5 * FX_ONE)).bits, 0);
}

#[test]
fn remainder_follows_dividend_sign() {
    assert_eq!(fx_rem(fx(163840), fx(131072)).bits, 32768);
    assert_eq!(fx_rem(fx(-163840), fx(131072)).bits, -32768);
    assert_eq!(fx_clamp(fx(163840), fx(0), fx(131072)).bits, 131072);
}

#[test]
fn binary32_decode_matches_float_values() {
    assert_eq!(fx_from_f32_bits(0.0f32.to_bits()).bits, 0);
    assert_eq!(fx_from_f32_bits(1.0f32.to_bits()).bits, FX_ONE);
    assert_eq!(fx_from_f32_bits((-1.0f32).to_bits()).bits, -FX_ONE);
    assert_eq!(fx_from_f32_bits(1.5f32.to_bits()).bits, 98304);
    assert_eq!(fx_from_f32_bits(2.5f32.to_bits()).bits, 163840);
    assert_eq!(fx_from_f32_bits(9999.0f32.to_bits()).bits, 9999 * FX_ONE);
    // truncation toward zero
    let v = 0.1f32;
    let expected = (0.1f64 * 65536.0).floor() as i64;
    let got = fx_from_f32_bits(v.to_bits()).bits;
    assert!((got - expected).abs() <= 1, "got {got}, expected about {expected}");
    // NaN decodes to zero, infinities saturate
    assert_eq!(fx_from_f32_bits(f32::NAN.to_bits()).bits, 0);
    assert_eq!(fx_from_f32_bits(f32::INFINITY.to_bits()).bits, FX_MAX_BITS);
    assert_eq!(fx_from_f32_bits(f32::NEG_INFINITY.to_bits()).bits, FX_MIN_BITS);
    assert_eq!(fx_from_int(42).bits, 42 * FX_ONE);
}
