//! Fixed-point vectors and quaternions: the component types of a pose.

use vstd::prelude::*;

verus! {

use crate::fx::{
    Fx, FX_ONE, abs_int, abs_u128, div_trunc, fx_add, fx_add_spec, fx_lerp, fx_lerp_spec, fx_mul,
    fx_mul_spec, fx_neg, fx_neg_spec, fx_one, fx_sat, fx_zero, lemma_abs_mul, lemma_product_sign,
    sat_signed_u128,
};

/// A two-component vector (texture coordinates).
#[derive(Clone, Copy, Debug, PartialEq, Eq, Structural)]
pub struct Fx2 {
    pub x: Fx,
    pub y: Fx,
}

/// A three-component vector (translations, scales, positions).
#[derive(Clone, Copy, Debug, PartialEq, Eq, Structural)]
pub struct Fx3 {
    pub x: Fx,
    pub y: Fx,
    pub z: Fx,
}

/// A four-component vector (joint weights).
#[derive(Clone, Copy, Debug, PartialEq, Eq, Structural)]
pub struct Fx4 {
    pub x: Fx,
    pub y: Fx,
    pub z: Fx,
    pub w: Fx,
}

/// Four integer lanes (per-vertex joint indices).
#[derive(Clone, Copy, Debug, PartialEq, Eq, Structural)]
pub struct Int4 {
    pub x: i32,
    pub y: i32,
    pub z: i32,
    pub w: i32,
}

/// A rotation, stored as quaternion components `x*i + y*j + z*k + w`.
#[derive(Clone, Copy, Debug, PartialEq, Eq, Structural)]
pub struct Quat {
    pub x: Fx,
    pub y: Fx,
    pub z: Fx,
    pub w: Fx,
}

pub open spec fn fx3_zero_spec() -> Fx3 {
    Fx3 { x: Fx { bits: 0 }, y: Fx { bits: 0 }, z: Fx { bits: 0 } }
}

pub open spec fn fx3_one_spec() -> Fx3 {
    Fx3 { x: Fx { bits: FX_ONE }, y: Fx { bits: FX_ONE }, z: Fx { bits: FX_ONE } }
}

pub open spec fn quat_identity_spec() -> Quat {
    Quat { x: Fx { bits: 0 }, y: Fx { bits: 0 }, z: Fx { bits: 0 }, w: Fx { bits: FX_ONE } }
}

pub open spec fn fx3_lerp_spec(a: Fx3, b: Fx3, t: Fx) -> Fx3 {
    Fx3 {
        x: Fx { bits: fx_lerp_spec(a.x.bits as int, b.x.bits as int, t.bits as int) as i64 },
        y: Fx { bits: fx_lerp_spec(a.y.bits as int, b.y.bits as int, t.bits as int) as i64 },
        z: Fx { bits: fx_lerp_spec(a.z.bits as int, b.z.bits as int, t.bits as int) as i64 },
    }
}

/// Every translation keyframe is pre-multiplied by the rig's uniform root
/// scale before densification.
pub open spec fn fx3_scale_spec(v: Fx3, s: Fx) -> Fx3 {
    Fx3 {
        x: Fx { bits: fx_mul_spec(v.x.bits as int, s.bits as int) as i64 },
        y: Fx { bits: fx_mul_spec(v.y.bits as int, s.bits as int) as i64 },
        z: Fx { bits: fx_mul_spec(v.z.bits as int, s.bits as int) as i64 },
    }
}

pub open spec fn quat_dot_spec(a: Quat, b: Quat) -> int {
    fx_add_spec(
        fx_add_spec(
            fx_add_spec(
                fx_mul_spec(a.x.bits as int, b.x.bits as int),
                fx_mul_spec(a.y.bits as int, b.y.bits as int),
            ),
            fx_mul_spec(a.z.bits as int, b.z.bits as int),
        ),
        fx_mul_spec(a.w.bits as int, b.w.bits as int),
    )
}

pub open spec fn quat_neg_spec(q: Quat) -> Quat {
    Quat {
        x: Fx { bits: fx_neg_spec(q.x.bits as int) as i64 },
        y: Fx { bits: fx_neg_spec(q.y.bits as int) as i64 },
        z: Fx { bits: fx_neg_spec(q.z.bits as int) as i64 },
        w: Fx { bits: fx_neg_spec(q.w.bits as int) as i64 },
    }
}

pub open spec fn quat_lerp_spec(a: Quat, b: Quat, t: Fx) -> Quat {
    Quat {
        x: Fx { bits: fx_lerp_spec(a.x.bits as int, b.x.bits as int, t.bits as int) as i64 },
        y: Fx { bits: fx_lerp_spec(a.y.bits as int, b.y.bits as int, t.bits as int) as i64 },
        z: Fx { bits: fx_lerp_spec(a.z.bits as int, b.z.bits as int, t.bits as int) as i64 },
        w: Fx { bits: fx_lerp_spec(a.w.bits as int, b.w.bits as int, t.bits as int) as i64 },
    }
}

/// Squared euclidean length of a quaternion, in raw bit units.  Components
/// are first saturated into the symmetric range, so the one bit pattern
/// outside it (`i64::MIN`) weighs like `FX_MIN_BITS`.
pub open spec fn quat_norm2_spec(q: Quat) -> int {
    let x = fx_sat(q.x.bits as int);
    let y = fx_sat(q.y.bits as int);
    let z = fx_sat(q.z.bits as int);
    let w = fx_sat(q.w.bits as int);
    x * x + y * y + z * z + w * w
}

/// Integer square root: the unique `r >= 0` with `r * r <= n < (r+1) * (r+1)`.
pub open spec fn sqrt_floor(n: int) -> int {
    choose|r: int| 0 <= r && #[trigger] (r * r) <= n < (r + 1) * (r + 1)
}

/// Scaling a component back onto the unit sphere: `c / s` in fixed point,
/// where `s` is the (bit-scale) length of the quaternion.
pub open spec fn norm_div_spec(c: int, s: int) -> int {
    fx_sat(div_trunc(c * FX_ONE, s))
}

/// Renormalization of a quaternion onto the unit sphere.  A zero-length
/// quaternion renormalizes to the identity rotation.
pub open spec fn quat_normalize_spec(q: Quat) -> Quat {
    let n = quat_norm2_spec(q);
    if n == 0 {
        quat_identity_spec()
    } else {
        let s = sqrt_floor(n);
        Quat {
            x: Fx { bits: norm_div_spec(q.x.bits as int, s) as i64 },
            y: Fx { bits: norm_div_spec(q.y.bits as int, s) as i64 },
            z: Fx { bits: norm_div_spec(q.z.bits as int, s) as i64 },
            w: Fx { bits: norm_div_spec(q.w.bits as int, s) as i64 },
        }
    }
}

/// Shortest-arc, unit-preserving rotation interpolation: the fixed-point
/// realization of spherical interpolation.  Endpoints are returned exactly;
/// in between, the nearer cover of the target rotation is blended
/// componentwise and the blend is renormalized onto the unit sphere.
pub open spec fn quat_slerp_spec(a: Quat, b: Quat, alpha: Fx) -> Quat {
    if alpha.bits <= 0 {
        a
    } else if alpha.bits >= FX_ONE {
        b
    } else {
        let bb = if quat_dot_spec(a, b) < 0 {
            quat_neg_spec(b)
        } else {
            b
        };
        quat_normalize_spec(quat_lerp_spec(a, bb, alpha))
    }
}

pub fn fx3_new(x: Fx, y: Fx, z: Fx) -> (r: Fx3)
    ensures
        r == (Fx3 { x, y, z }),
{
    Fx3 { x, y, z }
}

pub fn fx3_zero() -> (r: Fx3)
    ensures
        r == fx3_zero_spec(),
{
    Fx3 { x: fx_zero(), y: fx_zero(), z: fx_zero() }
}

pub fn fx3_one() -> (r: Fx3)
    ensures
        r == fx3_one_spec(),
{
    Fx3 { x: fx_one(), y: fx_one(), z: fx_one() }
}

pub fn quat_identity() -> (r: Quat)
    ensures
        r == quat_identity_spec(),
{
    Quat { x: fx_zero(), y: fx_zero(), z: fx_zero(), w: fx_one() }
}

pub fn quat_new(x: Fx, y: Fx, z: Fx, w: Fx) -> (r: Quat)
    ensures
        r == (Quat { x, y, z, w }),
{
    Quat { x, y, z, w }
}

pub fn fx3_lerp(a: &Fx3, b: &Fx3, t: Fx) -> (r: Fx3)
    ensures
        r == fx3_lerp_spec(*a, *b, t),
{
    Fx3 { x: fx_lerp(a.x, b.x, t), y: fx_lerp(a.y, b.y, t), z: fx_lerp(a.z, b.z, t) }
}

pub fn fx3_scale(v: &Fx3, s: Fx) -> (r: Fx3)
    ensures
        r == fx3_scale_spec(*v, s),
{
    Fx3 { x: fx_mul(v.x, s), y: fx_mul(v.y, s), z: fx_mul(v.z, s) }
}

pub fn quat_dot(a: &Quat, b: &Quat) -> (r: Fx)
    ensures
        r.bits as int == quat_dot_spec(*a, *b),
{
    fx_add(
        fx_add(fx_add(fx_mul(a.x, b.x), fx_mul(a.y, b.y)), fx_mul(a.z, b.z)),
        fx_mul(a.w, b.w),
    )
}

pub fn quat_neg(q: &Quat) -> (r: Quat)
    ensures
        r == quat_neg_spec(*q),
{
    Quat { x: fx_neg(q.x), y: fx_neg(q.y), z: fx_neg(q.z), w: fx_neg(q.w) }
}

pub fn quat_lerp(a: &Quat, b: &Quat, t: Fx) -> (r: Quat)
    ensures
        r == quat_lerp_spec(*a, *b, t),
{
    Quat {
        x: fx_lerp(a.x, b.x, t),
        y: fx_lerp(a.y, b.y, t),
        z: fx_lerp(a.z, b.z, t),
        w: fx_lerp(a.w, b.w, t),
    }
}

proof fn lemma_sqrt_floor_is(n: int, r: int)
    requires
        0 <= r,
        r * r <= n,
        n < (r + 1) * (r + 1),
    ensures
        sqrt_floor(n) == r,
{
    assert(0 <= r && r * r <= n < (r + 1) * (r + 1));
    let c = choose|c: int| 0 <= c && #[trigger] (c * c) <= n < (c + 1) * (c + 1);
    if c < r {
        assert((c + 1) * (c + 1) <= r * r) by (nonlinear_arith)
            requires
                0 <= c < r,
        ;
    } else if c > r {
        assert((r + 1) * (r + 1) <= c * c) by (nonlinear_arith)
            requires
                0 <= r < c,
        ;
    }
}

/// Binary search for the integer square root of a wide sum of squares.
fn isqrt_u128(n: u128) -> (r: u128)
    requires
        (n as int) < 0xffff_ffff_ffff_ffffint * 0xffff_ffff_ffff_ffffint,
    ensures
        r as int == sqrt_floor(n as int),
        r as int * r as int <= n as int,
        (n as int) < (r as int + 1) * (r as int + 1),
{
    let mut lo: u128 = 0;
    let mut hi: u128 = 0xffff_ffff_ffff_ffff;
    while lo + 1 < hi
        invariant
            0 <= lo < hi <= 0xffff_ffff_ffff_ffff,
            lo as int * lo as int <= n as int,
            (n as int) < hi as int * hi as int,
        decreases hi - lo,
    {
        let mid = lo + (hi - lo) / 2;
        proof {
            assert((mid as int) * (mid as int) < 0x1_0000_0000_0000_0000int
                * 0x1_0000_0000_0000_0000int) by (nonlinear_arith)
                requires
                    0 <= (mid as int) < 0x1_0000_0000_0000_0000int,
            ;
        }
        if mid * mid <= n {
            lo = mid;
        } else {
            hi = mid;
        }
    }
    proof {
        lemma_sqrt_floor_is(n as int, lo as int);
    }
    lo
}

/// One renormalized component: `c * FX_ONE / s`, truncated toward zero and
/// saturated.
fn norm_div(c: Fx, s: u128) -> (r: Fx)
    requires
        s > 0,
    ensures
        r.bits as int == norm_div_spec(c.bits as int, s as int),
{
    let mc = abs_u128(c.bits);
    proof {
        assert(mc as int * (FX_ONE as int) <= 0x8000_0000_0000_0000int * 65536int)
            by (nonlinear_arith)
            requires
                0 <= (mc as int) <= 0x8000_0000_0000_0000int,
        ;
    }
    let num: u128 = mc * (FX_ONE as u128);
    let q: u128 = num / s;
    proof {
        lemma_abs_mul(c.bits as int, FX_ONE as int);
        lemma_product_sign(c.bits as int, FX_ONE as int);
    }
    if num == 0 {
        Fx { bits: 0 }
    } else {
        Fx { bits: sat_signed_u128(q, c.bits < 0) }
    }
}

/// Magnitude of a saturated component: `|fx_sat(c)|`.
fn capped_mag(c: Fx) -> (m: u128)
    ensures
        m as int == abs_int(fx_sat(c.bits as int)),
        m <= 0x7fff_ffff_ffff_ffff,
{
    let a = abs_u128(c.bits);
    if a > 0x7fff_ffff_ffff_ffff {
        0x7fff_ffff_ffff_ffff
    } else {
        a
    }
}

proof fn lemma_capped_square(m: int, c: int)
    requires
        m == abs_int(c),
        0 <= m <= 0x7fff_ffff_ffff_ffff,
    ensures
        m * m == c * c,
        m * m <= 0x7fff_ffff_ffff_ffffint * 0x7fff_ffff_ffff_ffffint,
{
    lemma_abs_mul(c, c);
    assert(abs_int(c * c) == c * c) by (nonlinear_arith);
    assert(m * m <= 0x7fff_ffff_ffff_ffffint * 0x7fff_ffff_ffff_ffffint) by (nonlinear_arith)
        requires
            0 <= m <= 0x7fff_ffff_ffff_ffff,
    ;
}

pub fn quat_normalize(q: &Quat) -> (r: Quat)
    ensures
        r == quat_normalize_spec(*q),
{
    let mx = capped_mag(q.x);
    let my = capped_mag(q.y);
    let mz = capped_mag(q.z);
    let mw = capped_mag(q.w);
    proof {
        lemma_capped_square(mx as int, fx_sat(q.x.bits as int));
        lemma_capped_square(my as int, fx_sat(q.y.bits as int));
        lemma_capped_square(mz as int, fx_sat(q.z.bits as int));
        lemma_capped_square(mw as int, fx_sat(q.w.bits as int));
    }
    let n: u128 = mx * mx + my * my + mz * mz + mw * mw;
    if n == 0 {
        quat_identity()
    } else {
        let s = isqrt_u128(n);
        proof {
            assert(s as int > 0) by (nonlinear_arith)
                requires
                    s as int * s as int <= n as int,
                    (n as int) < (s as int + 1) * (s as int + 1),
                    n as int > 0,
                    s as int >= 0,
            ;
        }
        Quat {
            x: norm_div(q.x, s),
            y: norm_div(q.y, s),
            z: norm_div(q.z, s),
            w: norm_div(q.w, s),
        }
    }
}

proof fn lemma_unit_component_bound(c: int, rest: int)
    requires
        c * c + rest == 65536 * 65536,
        rest >= 0,
    ensures
        -65536 <= c <= 65536,
{
    assert(c * c <= 65536 * 65536);
    if c > 65536 || c < -65536 {
        assert(c * c > 65536 * 65536) by (nonlinear_arith)
            requires
                c > 65536 || c < -65536,
        ;
    }
}

proof fn lemma_norm_div_by_one_fixes(c: int)
    requires
        -65536 <= c <= 65536,
    ensures
        norm_div_spec(c, 65536) == c,
{
    lemma_abs_mul(c, FX_ONE as int);
    lemma_product_sign(c, FX_ONE as int);
    vstd::arithmetic::div_mod::lemma_div_multiples_vanish(abs_int(c), 65536);
    assert(65536 * abs_int(c) == abs_int(c) * 65536) by (nonlinear_arith);
}

proof fn lemma_sqrt_floor_exists(n: int)
    requires
        n >= 0,
    ensures
        0 <= sqrt_floor(n),
        sqrt_floor(n) * sqrt_floor(n) <= n,
        n < (sqrt_floor(n) + 1) * (sqrt_floor(n) + 1),
    decreases n,
{
    if n == 0 {
        assert((0int * 0int) <= n < (0int + 1) * (0int + 1));
    } else {
        lemma_sqrt_floor_exists(n - 1);
        let r = sqrt_floor(n - 1);
        if (r + 1) * (r + 1) <= n {
            assert(n == (r + 1) * (r + 1));
            assert((r + 1) * (r + 1) < (r + 2) * (r + 2)) by (nonlinear_arith)
                requires
                    r >= 0,
            ;
            assert(((r + 1) * (r + 1)) <= n < ((r + 1) + 1) * ((r + 1) + 1));
        } else {
            assert((r * r) <= n < (r + 1) * (r + 1));
        }
    }
    let s = choose|r: int| 0 <= r && #[trigger] (r * r) <= n < (r + 1) * (r + 1);
    lemma_sqrt_floor_is(n, s);
}

proof fn lemma_norm_div_bounded(c: int, s: int)
    requires
        s > 0,
        c * c <= (s + 1) * (s + 1) - 1,
    ensures
        -65536 <= norm_div_spec(c, s) <= 65536,
{
    assert(abs_int(c) <= s) by (nonlinear_arith)
        requires
            s > 0,
            c * c <= (s + 1) * (s + 1) - 1,
    ;
    lemma_abs_mul(c, FX_ONE as int);
    lemma_product_sign(c, FX_ONE as int);
    assert(abs_int(c) * 65536 <= s * 65536) by (nonlinear_arith)
        requires
            abs_int(c) <= s,
            s > 0,
    ;
    vstd::arithmetic::div_mod::lemma_div_is_ordered(abs_int(c) * 65536, s * 65536, s);
    vstd::arithmetic::div_mod::lemma_div_multiples_vanish(65536, s);
    assert(s * 65536 == 65536 * s) by (nonlinear_arith);
    vstd::arithmetic::div_mod::lemma_div_pos_is_pos(abs_int(c) * 65536, s);
}

/// All four components have magnitude at most one: the ball every unit
/// quaternion lives in, and the range interpolated rotations stay inside.
pub open spec fn quat_in_unit_ball(q: Quat) -> bool {
    &&& -65536 <= q.x.bits <= 65536
    &&& -65536 <= q.y.bits <= 65536
    &&& -65536 <= q.z.bits <= 65536
    &&& -65536 <= q.w.bits <= 65536
}

/// Rotation interpolation never leaves the unit ball: between two
/// rotations whose components have magnitude at most one, every
/// interpolated rotation has components of magnitude at most one (the
/// endpoints are returned as they are; anything in between is
/// renormalized).
pub proof fn lemma_slerp_in_unit_ball(a: Quat, b: Quat, alpha: Fx)
    requires
        quat_in_unit_ball(a),
        quat_in_unit_ball(b),
    ensures
        quat_in_unit_ball(quat_slerp_spec(a, b, alpha)),
{
    if alpha.bits <= 0 || alpha.bits >= FX_ONE {
    } else {
        let bb = if quat_dot_spec(a, b) < 0 {
            quat_neg_spec(b)
        } else {
            b
        };
        let l = quat_lerp_spec(a, bb, alpha);
        assert(fx_sat(l.x.bits as int) * fx_sat(l.x.bits as int) >= 0 && fx_sat(l.y.bits as int)
            * fx_sat(l.y.bits as int) >= 0 && fx_sat(l.z.bits as int) * fx_sat(l.z.bits as int)
            >= 0 && fx_sat(l.w.bits as int) * fx_sat(l.w.bits as int) >= 0)
            by (nonlinear_arith);
        if quat_norm2_spec(l) == 0 {
        } else {
            lemma_normalize_bounded(l);
        }
    }
}

/// All four components sit inside the symmetric fixed-point range (every
/// quaternion the library computes satisfies this; only the bit pattern
/// `i64::MIN` falls outside).
pub open spec fn quat_repr_ok(q: Quat) -> bool {
    &&& q.x.bits > i64::MIN
    &&& q.y.bits > i64::MIN
    &&& q.z.bits > i64::MIN
    &&& q.w.bits > i64::MIN
}

/// Renormalization never leaves the unit ball: every component of a
/// renormalized non-zero quaternion has magnitude at most one.
pub proof fn lemma_normalize_bounded(q: Quat)
    requires
        quat_repr_ok(q),
        quat_norm2_spec(q) > 0,
    ensures
        ({
            let r = quat_normalize_spec(q);
            &&& -65536 <= r.x.bits <= 65536
            &&& -65536 <= r.y.bits <= 65536
            &&& -65536 <= r.z.bits <= 65536
            &&& -65536 <= r.w.bits <= 65536
        }),
{
    let n = quat_norm2_spec(q);
    lemma_sqrt_floor_exists(n);
    let s = sqrt_floor(n);
    let x = fx_sat(q.x.bits as int);
    let y = fx_sat(q.y.bits as int);
    let z = fx_sat(q.z.bits as int);
    let w = fx_sat(q.w.bits as int);
    assert(x * x >= 0 && y * y >= 0 && z * z >= 0 && w * w >= 0) by (nonlinear_arith);
    assert(s > 0) by (nonlinear_arith)
        requires
            s >= 0,
            s * s <= n,
            n < (s + 1) * (s + 1),
            n > 0,
    ;
    // in-range components are untouched by saturation
    assert(x == q.x.bits as int && y == q.y.bits as int && z == q.z.bits as int && w == q.w.bits
        as int);
    lemma_norm_div_bounded(q.x.bits as int, s);
    lemma_norm_div_bounded(q.y.bits as int, s);
    lemma_norm_div_bounded(q.z.bits as int, s);
    lemma_norm_div_bounded(q.w.bits as int, s);
}

/// Renormalization fixes a quaternion that is exactly unit length in
/// fixed point: its components come back unchanged.
pub proof fn lemma_normalize_fixes_exact_unit(q: Quat)
    requires
        quat_norm2_spec(q) == 65536 * 65536,
    ensures
        quat_normalize_spec(q) == q,
{
    let x = fx_sat(q.x.bits as int);
    let y = fx_sat(q.y.bits as int);
    let z = fx_sat(q.z.bits as int);
    let w = fx_sat(q.w.bits as int);
    assert(x * x >= 0 && y * y >= 0 && z * z >= 0 && w * w >= 0) by (nonlinear_arith);
    lemma_unit_component_bound(x, y * y + z * z + w * w);
    lemma_unit_component_bound(y, x * x + z * z + w * w);
    lemma_unit_component_bound(z, x * x + y * y + w * w);
    lemma_unit_component_bound(w, x * x + y * y + z * z);
    assert(x == q.x.bits as int && y == q.y.bits as int && z == q.z.bits as int && w == q.w.bits
        as int);
    lemma_sqrt_floor_is(65536int * 65536int, 65536int);
    assert(65537 * 65537 > 65536 * 65536) by (nonlinear_arith);
    lemma_norm_div_by_one_fixes(q.x.bits as int);
    lemma_norm_div_by_one_fixes(q.y.bits as int);
    lemma_norm_div_by_one_fixes(q.z.bits as int);
    lemma_norm_div_by_one_fixes(q.w.bits as int);
}

/// Interpolating an exactly unit rotation with itself returns it at every
/// factor: the blend of equal inputs renormalizes to the input.
pub proof fn lemma_slerp_of_unit_self(q: Quat, alpha: Fx)
    requires
        quat_norm2_spec(q) == 65536 * 65536,
    ensures
        quat_slerp_spec(q, q, alpha) == q,
{
    if alpha.bits <= 0 || alpha.bits >= FX_ONE {
    } else {
        let x = q.x.bits as int;
        let y = q.y.bits as int;
        let z = q.z.bits as int;
        let w = q.w.bits as int;
        let sx = fx_sat(x);
        let sy = fx_sat(y);
        let sz = fx_sat(z);
        let sw = fx_sat(w);
        assert(sx * sx >= 0 && sy * sy >= 0 && sz * sz >= 0 && sw * sw >= 0) by (nonlinear_arith);
        lemma_unit_component_bound(sx, sy * sy + sz * sz + sw * sw);
        lemma_unit_component_bound(sy, sx * sx + sz * sz + sw * sw);
        lemma_unit_component_bound(sz, sx * sx + sy * sy + sw * sw);
        lemma_unit_component_bound(sw, sx * sx + sy * sy + sz * sz);
        // the bounds rule out the one pattern saturation would change
        assert(x == sx && y == sy && z == sz && w == sw);
        // the self dot product cannot be negative
        lemma_abs_mul(x, x);
        lemma_abs_mul(y, y);
        lemma_abs_mul(z, z);
        lemma_abs_mul(w, w);
        assert(x * x >= 0 && y * y >= 0 && z * z >= 0 && w * w >= 0) by (nonlinear_arith);
        vstd::arithmetic::div_mod::lemma_div_pos_is_pos(abs_int(x * x), 65536);
        vstd::arithmetic::div_mod::lemma_div_pos_is_pos(abs_int(y * y), 65536);
        vstd::arithmetic::div_mod::lemma_div_pos_is_pos(abs_int(z * z), 65536);
        vstd::arithmetic::div_mod::lemma_div_pos_is_pos(abs_int(w * w), 65536);
        assert(quat_dot_spec(q, q) >= 0);
        // blending equal components leaves them unchanged
        assert(0 * (alpha.bits as int) == 0) by (nonlinear_arith);
        vstd::arithmetic::div_mod::lemma_basic_div(0, 65536);
        assert(quat_lerp_spec(q, q, alpha) == q);
        lemma_normalize_fixes_exact_unit(q);
    }
}

/// Rotation interpolation returns its endpoints exactly: the left input
/// at factor 0 (or below), the right input at factor 1 (or above).
pub proof fn lemma_slerp_endpoints(a: Quat, b: Quat)
    ensures
        quat_slerp_spec(a, b, Fx { bits: 0 }) == a,
        quat_slerp_spec(a, b, Fx { bits: FX_ONE }) == b,
{
}

pub fn quat_slerp(a: &Quat, b: &Quat, alpha: Fx) -> (r: Quat)
    ensures
        r == quat_slerp_spec(*a, *b, alpha),
{
    if alpha.bits <= 0 {
        *a
    } else if alpha.bits >= FX_ONE {
        *b
    } else {
        let d = quat_dot(a, b);
        let l = if d.bits < 0 {
            let bb = quat_neg(b);
            quat_lerp(a, &bb, alpha)
        } else {
            quat_lerp(a, b, alpha)
        };
        quat_normalize(&l)
    }
}

} // verus!
