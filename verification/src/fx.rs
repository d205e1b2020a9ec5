//! Deterministic Q47.16 fixed-point scalar arithmetic.
//!
//! Animation times, translations, rotations and scales are all carried as
//! [`Fx`] values: an `i64` holding the real number `bits / 65536`.  All
//! operations are total and saturate to the symmetric range
//! `[-FX_MAX_BITS, FX_MAX_BITS]`, so sampling can never trap and results are
//! bit-reproducible on every machine.

use vstd::prelude::*;

verus! {

use vstd::arithmetic::power2::pow2;

/// Number of fixed-point bits per unit: `Fx` value 1.0 is `FX_ONE` bits.
pub const FX_ONE: i64 = 65536;

/// Largest representable magnitude, in bits (`i64::MAX`).
pub const FX_MAX_BITS: i64 = 0x7fff_ffff_ffff_ffff;

/// Smallest representable value, in bits.  The range is kept symmetric so
/// that negation never overflows.
pub const FX_MIN_BITS: i64 = -0x7fff_ffff_ffff_ffff;

/// A Q47.16 fixed-point scalar: the real number `bits / 65536`.
#[derive(Clone, Copy, Debug, PartialEq, Eq, Structural)]
pub struct Fx {
    pub bits: i64,
}

/// Saturation to the symmetric representable range.
pub open spec fn fx_sat(x: int) -> int {
    if x > FX_MAX_BITS as int {
        FX_MAX_BITS as int
    } else if x < FX_MIN_BITS as int {
        FX_MIN_BITS as int
    } else {
        x
    }
}

/// Absolute value of a mathematical integer.
pub open spec fn abs_int(x: int) -> int {
    if x < 0 {
        -x
    } else {
        x
    }
}

/// Division truncating toward zero (the rounding of hardware integer
/// division), defined for any non-zero divisor.
pub open spec fn div_trunc(x: int, d: int) -> int {
    if (x < 0) == (d < 0) {
        abs_int(x) / abs_int(d)
    } else {
        -(abs_int(x) / abs_int(d))
    }
}

/// Saturating fixed-point addition.
pub open spec fn fx_add_spec(a: int, b: int) -> int {
    fx_sat(a + b)
}

/// Saturating fixed-point subtraction.
pub open spec fn fx_sub_spec(a: int, b: int) -> int {
    fx_sat(a - b)
}

/// Fixed-point negation (exact, thanks to the symmetric range).
pub open spec fn fx_neg_spec(a: int) -> int {
    fx_sat(-a)
}

/// Saturating fixed-point product: the exact product scaled back down,
/// truncated toward zero.
pub open spec fn fx_mul_spec(a: int, b: int) -> int {
    fx_sat(div_trunc(a * b, FX_ONE as int))
}

/// Saturating fixed-point quotient, truncated toward zero.  A zero divisor
/// yields zero: the library's sampling path is total by design.
pub open spec fn fx_div_spec(a: int, b: int) -> int {
    if b == 0 {
        0
    } else {
        fx_sat(div_trunc(a * FX_ONE, b))
    }
}

/// Fixed-point remainder with the sign of the dividend (the rounding of
/// hardware `%`).  A zero divisor yields zero.
pub open spec fn fx_rem_spec(a: int, b: int) -> int {
    if b == 0 {
        0
    } else {
        a - b * div_trunc(a, b)
    }
}

pub open spec fn fx_min_spec(a: int, b: int) -> int {
    if a <= b {
        a
    } else {
        b
    }
}

pub open spec fn fx_max_spec(a: int, b: int) -> int {
    if a >= b {
        a
    } else {
        b
    }
}

/// Clamp `x` into `[lo, hi]` (applied in that order, as the sampler's
/// non-looping time clamp asks for).
pub open spec fn fx_clamp_spec(x: int, lo: int, hi: int) -> int {
    if x < lo {
        lo
    } else if x > hi {
        hi
    } else {
        x
    }
}

/// Linear interpolation `a + (b - a) * t`, in saturating fixed point.
pub open spec fn fx_lerp_spec(a: int, b: int, t: int) -> int {
    fx_add_spec(a, fx_mul_spec(fx_sub_spec(b, a), t))
}

/// Normalized position of `t` between `l` and `r`.  In the degenerate case
/// `l == r` the factor is defined to be 0, so that interpolating with it
/// holds the left value.
pub open spec fn fx_inverse_lerp_spec(l: int, r: int, t: int) -> int {
    if l == r {
        0
    } else {
        fx_div_spec(fx_sub_spec(t, l), fx_sub_spec(r, l))
    }
}

/// Frame index under a value: floor of the scalar, saturated into the
/// `usize` range (negative times map to frame 0).
pub open spec fn fx_floor_index_spec(a: int) -> int {
    let f = a / (FX_ONE as int);
    if f < 0 {
        0
    } else if f > usize::MAX as int {
        usize::MAX as int
    } else {
        f
    }
}

/// The fixed-point image of an integer count.
pub open spec fn fx_from_int_spec(n: int) -> int {
    fx_sat(n * FX_ONE)
}


/// Struct-level images of the scalar operations, for composing larger
/// component formulas (vectors, matrices) in specifications.
pub open spec fn fx_addv(a: Fx, b: Fx) -> Fx {
    Fx { bits: fx_add_spec(a.bits as int, b.bits as int) as i64 }
}

pub open spec fn fx_subv(a: Fx, b: Fx) -> Fx {
    Fx { bits: fx_sub_spec(a.bits as int, b.bits as int) as i64 }
}

pub open spec fn fx_negv(a: Fx) -> Fx {
    Fx { bits: fx_neg_spec(a.bits as int) as i64 }
}

pub open spec fn fx_mulv(a: Fx, b: Fx) -> Fx {
    Fx { bits: fx_mul_spec(a.bits as int, b.bits as int) as i64 }
}

pub open spec fn fx_divv(a: Fx, b: Fx) -> Fx {
    Fx { bits: fx_div_spec(a.bits as int, b.bits as int) as i64 }
}

pub open spec fn fx_remv(a: Fx, b: Fx) -> Fx {
    Fx { bits: fx_rem_spec(a.bits as int, b.bits as int) as i64 }
}

pub open spec fn fx_lerpv(a: Fx, b: Fx, t: Fx) -> Fx {
    Fx { bits: fx_lerp_spec(a.bits as int, b.bits as int, t.bits as int) as i64 }
}

pub open spec fn fx_invlerpv(l: Fx, r: Fx, t: Fx) -> Fx {
    Fx { bits: fx_inverse_lerp_spec(l.bits as int, r.bits as int, t.bits as int) as i64 }
}

pub open spec fn fx_clampv(x: Fx, lo: Fx, hi: Fx) -> Fx {
    Fx { bits: fx_clamp_spec(x.bits as int, lo.bits as int, hi.bits as int) as i64 }
}

pub open spec fn fx_minv(a: Fx, b: Fx) -> Fx {
    Fx { bits: fx_min_spec(a.bits as int, b.bits as int) as i64 }
}

pub open spec fn fx_maxv(a: Fx, b: Fx) -> Fx {
    Fx { bits: fx_max_spec(a.bits as int, b.bits as int) as i64 }
}

pub(crate) proof fn lemma_abs_mul(a: int, b: int)
    ensures
        abs_int(a * b) == abs_int(a) * abs_int(b),
{
    if a >= 0 && b >= 0 {
        assert(a * b >= 0) by (nonlinear_arith)
            requires
                a >= 0 && b >= 0,
        ;
    } else if a >= 0 && b < 0 {
        assert(a * b <= 0 && a * b == -(a * (-b)) && a * (-b) >= 0) by (nonlinear_arith)
            requires
                a >= 0 && b < 0,
        ;
    } else if a < 0 && b >= 0 {
        assert(a * b <= 0 && a * b == -((-a) * b) && (-a) * b >= 0) by (nonlinear_arith)
            requires
                a < 0 && b >= 0,
        ;
    } else {
        assert(a * b >= 0 && a * b == (-a) * (-b)) by (nonlinear_arith)
            requires
                a < 0 && b < 0,
        ;
    }
}

pub(crate) proof fn lemma_product_sign(a: int, b: int)
    ensures
        (a * b < 0) ==> ((a < 0) != (b < 0)),
        ((a < 0) != (b < 0)) && a != 0 && b != 0 ==> a * b < 0,
        (a == 0 || b == 0) ==> a * b == 0,
{
    assert((a * b < 0) ==> ((a < 0) != (b < 0))) by (nonlinear_arith);
    assert(((a < 0) != (b < 0)) && a != 0 && b != 0 ==> a * b < 0) by (nonlinear_arith);
    assert((a == 0 || b == 0) ==> a * b == 0) by (nonlinear_arith);
}

/// Clamp a wide intermediate result back into the representable range.
pub(crate) fn sat_i128(x: i128) -> (r: i64)
    ensures
        r as int == fx_sat(x as int),
{
    if x > FX_MAX_BITS as i128 {
        FX_MAX_BITS
    } else if x < FX_MIN_BITS as i128 {
        FX_MIN_BITS
    } else {
        x as i64
    }
}

/// Magnitude of a scalar's bits, widened so that `i64::MIN` needs no special
/// case.
pub(crate) fn abs_u128(x: i64) -> (m: u128)
    ensures
        m as int == abs_int(x as int),
{
    let w = x as i128;
    if w < 0 {
        (-w) as u128
    } else {
        w as u128
    }
}

/// Recombine a truncated unsigned quotient with its sign, saturating.
pub(crate) fn sat_signed_u128(q: u128, neg: bool) -> (r: i64)
    ensures
        neg ==> r as int == fx_sat(-(q as int)),
        !neg ==> r as int == fx_sat(q as int),
{
    if q > FX_MAX_BITS as u128 {
        if neg {
            FX_MIN_BITS
        } else {
            FX_MAX_BITS
        }
    } else {
        if neg {
            -(q as i64)
        } else {
            q as i64
        }
    }
}

pub fn fx_add(a: Fx, b: Fx) -> (r: Fx)
    ensures
        r.bits as int == fx_add_spec(a.bits as int, b.bits as int),
        r == fx_addv(a, b),
{
    let s: i128 = a.bits as i128 + b.bits as i128;
    Fx { bits: sat_i128(s) }
}

pub fn fx_sub(a: Fx, b: Fx) -> (r: Fx)
    ensures
        r.bits as int == fx_sub_spec(a.bits as int, b.bits as int),
        r == fx_subv(a, b),
{
    let s: i128 = a.bits as i128 - b.bits as i128;
    Fx { bits: sat_i128(s) }
}

pub fn fx_neg(a: Fx) -> (r: Fx)
    ensures
        r.bits as int == fx_neg_spec(a.bits as int),
        r == fx_negv(a),
{
    let s: i128 = -(a.bits as i128);
    Fx { bits: sat_i128(s) }
}

pub fn fx_mul(a: Fx, b: Fx) -> (r: Fx)
    ensures
        r.bits as int == fx_mul_spec(a.bits as int, b.bits as int),
        r == fx_mulv(a, b),
{
    let ma = abs_u128(a.bits);
    let mb = abs_u128(b.bits);
    proof {
        lemma_abs_mul(a.bits as int, b.bits as int);
        lemma_product_sign(a.bits as int, b.bits as int);
        assert(ma as int * mb as int <= 0x8000_0000_0000_0000int * 0x8000_0000_0000_0000int)
            by (nonlinear_arith)
            requires
                0 <= ma as int <= 0x8000_0000_0000_0000int,
                0 <= mb as int <= 0x8000_0000_0000_0000int,
        ;
    }
    let m: u128 = ma * mb;
    let q: u128 = m / (FX_ONE as u128);
    let neg = (a.bits < 0) != (b.bits < 0);
    if m == 0 {
        Fx { bits: 0 }
    } else {
        proof {
            assert(q as int == abs_int(a.bits as int * b.bits as int) / (FX_ONE as int));
        }
        Fx { bits: sat_signed_u128(q, neg) }
    }
}

pub fn fx_div(a: Fx, b: Fx) -> (r: Fx)
    ensures
        r.bits as int == fx_div_spec(a.bits as int, b.bits as int),
        r == fx_divv(a, b),
{
    if b.bits == 0 {
        return Fx { bits: 0 };
    }
    let ma = abs_u128(a.bits);
    let mb = abs_u128(b.bits);
    proof {
        lemma_abs_mul(a.bits as int, FX_ONE as int);
        lemma_product_sign(a.bits as int, FX_ONE as int);
    }
    let num: u128 = ma * (FX_ONE as u128);
    let q: u128 = num / mb;
    let neg = (a.bits < 0) != (b.bits < 0);
    if num == 0 {
        Fx { bits: 0 }
    } else {
        Fx { bits: sat_signed_u128(q, neg) }
    }
}

pub fn fx_rem(a: Fx, b: Fx) -> (r: Fx)
    ensures
        r.bits as int == fx_rem_spec(a.bits as int, b.bits as int),
        r == fx_remv(a, b),
{
    if b.bits == 0 {
        return Fx { bits: 0 };
    }
    let ma = abs_u128(a.bits);
    let mb = abs_u128(b.bits);
    let mr: u128 = ma % mb;
    proof {
        lemma_div_trunc_rem(a.bits as int, b.bits as int);
    }
    if a.bits < 0 {
        Fx { bits: -(mr as i64) }
    } else {
        Fx { bits: mr as i64 }
    }
}

proof fn lemma_div_trunc_rem(a: int, b: int)
    requires
        b != 0,
    ensures
        a - b * div_trunc(a, b) == if a < 0 {
            -(abs_int(a) % abs_int(b))
        } else {
            abs_int(a) % abs_int(b)
        },
{
    let ma = abs_int(a);
    let mb = abs_int(b);
    vstd::arithmetic::div_mod::lemma_fundamental_div_mod(ma, mb);
    let q = ma / mb;
    let m = ma % mb;
    assert(ma == mb * q + m);
    if (a < 0) == (b < 0) {
        assert(a - b * q == if a < 0 {
            -m
        } else {
            m
        }) by (nonlinear_arith)
            requires
                ma == mb * q + m,
                ma == abs_int(a),
                mb == abs_int(b),
                (a < 0) == (b < 0),
                b != 0,
        ;
    } else {
        assert(a - b * (-q) == if a < 0 {
            -m
        } else {
            m
        }) by (nonlinear_arith)
            requires
                ma == mb * q + m,
                ma == abs_int(a),
                mb == abs_int(b),
                (a < 0) != (b < 0),
                b != 0,
        ;
    }
}

pub fn fx_min(a: Fx, b: Fx) -> (r: Fx)
    ensures
        r.bits as int == fx_min_spec(a.bits as int, b.bits as int),
        r == fx_minv(a, b),
{
    if a.bits <= b.bits {
        a
    } else {
        b
    }
}

pub fn fx_max(a: Fx, b: Fx) -> (r: Fx)
    ensures
        r.bits as int == fx_max_spec(a.bits as int, b.bits as int),
        r == fx_maxv(a, b),
{
    if a.bits >= b.bits {
        a
    } else {
        b
    }
}

pub fn fx_clamp(x: Fx, lo: Fx, hi: Fx) -> (r: Fx)
    ensures
        r.bits as int == fx_clamp_spec(x.bits as int, lo.bits as int, hi.bits as int),
        r == fx_clampv(x, lo, hi),
{
    if x.bits < lo.bits {
        lo
    } else if x.bits > hi.bits {
        hi
    } else {
        x
    }
}

pub fn fx_lerp(a: Fx, b: Fx, t: Fx) -> (r: Fx)
    ensures
        r.bits as int == fx_lerp_spec(a.bits as int, b.bits as int, t.bits as int),
        r == fx_lerpv(a, b, t),
{
    fx_add(a, fx_mul(fx_sub(b, a), t))
}

pub fn fx_inverse_lerp(l: Fx, r: Fx, t: Fx) -> (res: Fx)
    ensures
        res.bits as int == fx_inverse_lerp_spec(l.bits as int, r.bits as int, t.bits as int),
        res == fx_invlerpv(l, r, t),
{
    if l.bits == r.bits {
        Fx { bits: 0 }
    } else {
        fx_div(fx_sub(t, l), fx_sub(r, l))
    }
}

pub fn fx_floor_index(a: Fx) -> (r: usize)
    ensures
        r as int == fx_floor_index_spec(a.bits as int),
{
    if a.bits < 0 {
        0
    } else {
        let q: u64 = (a.bits as u64) / (FX_ONE as u64);
        if q > usize::MAX as u64 {
            usize::MAX
        } else {
            q as usize
        }
    }
}

pub fn fx_from_int(n: i64) -> (r: Fx)
    ensures
        r.bits as int == fx_from_int_spec(n as int),
{
    proof {
        assert(-0x8000_0000_0000_0000int * 65536int <= n as int * (FX_ONE as int)
            <= 0x8000_0000_0000_0000int * 65536int) by (nonlinear_arith)
            requires
                -0x8000_0000_0000_0000int <= n as int <= 0x8000_0000_0000_0000int,
        ;
    }
    let s: i128 = (n as i128) * (FX_ONE as i128);
    Fx { bits: sat_i128(s) }
}

pub fn fx_from_usize(n: usize) -> (r: Fx)
    ensures
        r.bits as int == fx_from_int_spec(n as int),
{
    proof {
        assert(n as int * (FX_ONE as int) <= 0xffff_ffff_ffff_ffffint * 65536int)
            by (nonlinear_arith)
            requires
                0 <= n as int <= 0xffff_ffff_ffff_ffffint,
        ;
    }
    let s: i128 = (n as i128) * (FX_ONE as i128);
    Fx { bits: sat_i128(s) }
}

/// Value of a binary32 bit pattern as a Q47.16 scalar, truncated toward
/// zero.  Interchange files store keyframe data in binary32; this decode is
/// pure integer arithmetic on the bit pattern.  A quiet or signalling NaN
/// maps to 0, infinities saturate, and subnormals (all below one
/// fixed-point step) truncate to 0.
pub open spec fn fx_from_f32_bits_spec(b: u32) -> int {
    let sign = b / 0x8000_0000;
    let e = (b / 0x80_0000) % 0x100;
    let m = b % 0x80_0000;
    if e == 255 {
        if m != 0 {
            0
        } else if sign == 1 {
            FX_MIN_BITS as int
        } else {
            FX_MAX_BITS as int
        }
    } else if e == 0 {
        0
    } else {
        let mfull = m + 0x80_0000;
        let mag: int = if e >= 134 {
            mfull * pow2((e - 134) as nat)
        } else {
            mfull as int / pow2((134 - e) as nat) as int
        };
        if sign == 1 {
            fx_sat(-mag)
        } else {
            fx_sat(mag)
        }
    }
}

proof fn lemma_shift_up_saturates(mfull: int, sh: nat)
    requires
        mfull >= 0x80_0000,
        sh >= 40,
    ensures
        mfull * pow2(sh) > FX_MAX_BITS as int,
{
    vstd::arithmetic::power2::lemma2_to64();
    vstd::arithmetic::power2::lemma2_to64_rest();
    if sh > 40 {
        vstd::arithmetic::power2::lemma_pow2_strictly_increases(40, sh);
    }
    assert(mfull * pow2(sh) >= 0x80_0000int * 0x100_0000_0000int) by (nonlinear_arith)
        requires
            mfull >= 0x80_0000,
            pow2(sh) >= 0x100_0000_0000int,
    ;
}

pub fn fx_from_f32_bits(b: u32) -> (r: Fx)
    ensures
        r.bits as int == fx_from_f32_bits_spec(b),
{
    let sign = b / 0x8000_0000;
    let e = (b / 0x80_0000) % 0x100;
    let m = b % 0x80_0000;
    if e == 255 {
        if m != 0 {
            Fx { bits: 0 }
        } else if sign == 1 {
            Fx { bits: FX_MIN_BITS }
        } else {
            Fx { bits: FX_MAX_BITS }
        }
    } else if e == 0 {
        Fx { bits: 0 }
    } else {
        let mfull: u64 = (m + 0x80_0000) as u64;
        if e >= 134 {
            let sh: u32 = e - 134;
            if sh >= 40 {
                proof {
                    lemma_shift_up_saturates(mfull as int, sh as nat);
                }
                if sign == 1 {
                    Fx { bits: FX_MIN_BITS }
                } else {
                    Fx { bits: FX_MAX_BITS }
                }
            } else {
                let mut v: u128 = mfull as u128;
                let mut i: u32 = 0;
                proof {
                    vstd::arithmetic::power2::lemma2_to64();
                }
                while i < sh
                    invariant
                        i <= sh < 40,
                        mfull < 0x100_0000,
                        v == mfull as int * pow2(i as nat),
                    decreases sh - i,
                {
                    proof {
                        vstd::arithmetic::power2::lemma2_to64();
                        vstd::arithmetic::power2::lemma2_to64_rest();
                        if (i as nat) < 39 {
                            vstd::arithmetic::power2::lemma_pow2_strictly_increases(
                                i as nat,
                                39,
                            );
                        }
                        assert(v * 2 == mfull as int * pow2((i + 1) as nat) && v * 2
                            <= 0x100_0000int * 0x8000_0000_0000int * 2) by (nonlinear_arith)
                            requires
                                v == mfull as int * pow2(i as nat),
                                0 <= (mfull as int) < 0x100_0000,
                                pow2(i as nat) <= 0x8000_0000_0000int,
                                pow2((i + 1) as nat) == 2 * pow2(i as nat),
                        ;
                    }
                    v = v * 2;
                    i = i + 1;
                }
                if sign == 1 {
                    if v > FX_MAX_BITS as u128 {
                        Fx { bits: FX_MIN_BITS }
                    } else {
                        Fx { bits: -(v as i64) }
                    }
                } else {
                    if v > FX_MAX_BITS as u128 {
                        Fx { bits: FX_MAX_BITS }
                    } else {
                        Fx { bits: v as i64 }
                    }
                }
            }
        } else {
            let sh: u32 = 134 - e;
            if sh >= 24 {
                proof {
                    vstd::arithmetic::power2::lemma2_to64();
                    if (sh as nat) > 24 {
                        vstd::arithmetic::power2::lemma_pow2_strictly_increases(24, sh as nat);
                    }
                    vstd::arithmetic::div_mod::lemma_basic_div(
                        mfull as int,
                        pow2(sh as nat) as int,
                    );
                }
                Fx { bits: 0 }
            } else {
                let mut v: u64 = mfull;
                let mut i: u32 = 0;
                proof {
                    vstd::arithmetic::power2::lemma2_to64();
                }
                while i < sh
                    invariant
                        i <= sh < 24,
                        v == mfull as int / pow2(i as nat) as int,
                    decreases sh - i,
                {
                    proof {
                        vstd::arithmetic::power2::lemma_pow2_pos(i as nat);
                        vstd::arithmetic::power2::lemma_pow2_unfold((i + 1) as nat);
                        vstd::arithmetic::power2::lemma_pow2_adds(i as nat, 1);
                        vstd::arithmetic::power2::lemma2_to64();
                        vstd::arithmetic::div_mod::lemma_div_denominator(
                            mfull as int,
                            pow2(i as nat) as int,
                            2,
                        );
                    }
                    v = v / 2;
                    i = i + 1;
                }
                proof {
                    vstd::arithmetic::power2::lemma_pow2_pos(sh as nat);
                    vstd::arithmetic::div_mod::lemma_div_nonincreasing(
                        mfull as int,
                        pow2(sh as nat) as int,
                    );
                }
                if sign == 1 {
                    Fx { bits: -(v as i64) }
                } else {
                    Fx { bits: v as i64 }
                }
            }
        }
    }
}


/// The fixed-point image of `n + 1`, for the right edge of a frame bracket.
pub fn fx_from_usize_succ(n: usize) -> (r: Fx)
    ensures
        r.bits as int == fx_from_int_spec(n as int + 1),
{
    proof {
        assert(0 <= (n as int + 1) * (FX_ONE as int) <= 0x1_0000_0000_0000_0000int * 65536int)
            by (nonlinear_arith)
            requires
                0 <= n as int + 1 <= 0x1_0000_0000_0000_0000int,
        ;
    }
    let s: i128 = (n as i128 + 1) * (FX_ONE as i128);
    Fx { bits: sat_i128(s) }
}

/// The scalar 0.
pub fn fx_zero() -> (r: Fx)
    ensures
        r.bits == 0,
{
    Fx { bits: 0 }
}

/// The scalar 1.
pub fn fx_one() -> (r: Fx)
    ensures
        r.bits == FX_ONE,
{
    Fx { bits: FX_ONE }
}

} // verus!
