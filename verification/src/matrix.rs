//! 4x4 fixed-point matrices: joint transforms and skinning output.
//!
//! Storage is row-major (`mRC` is row `R`, column `C`) and transforms act on
//! column vectors, so a parent transform composes on the left:
//! `world = parent * local`.  The final skinning output is transposed into
//! the column-major layout the GPU consumer expects.

use vstd::prelude::*;

verus! {

use crate::fx::{
    Fx, FX_ONE, fx_add, fx_addv, fx_div, fx_divv, fx_mul, fx_mulv, fx_sub, fx_subv,
};
use crate::linear::{Fx3, Quat};

/// A 4x4 matrix of fixed-point scalars.
#[derive(Clone, Copy, Debug, PartialEq, Eq, Structural)]
pub struct Mat4 {
    pub m00: Fx,
    pub m01: Fx,
    pub m02: Fx,
    pub m03: Fx,
    pub m10: Fx,
    pub m11: Fx,
    pub m12: Fx,
    pub m13: Fx,
    pub m20: Fx,
    pub m21: Fx,
    pub m22: Fx,
    pub m23: Fx,
    pub m30: Fx,
    pub m31: Fx,
    pub m32: Fx,
    pub m33: Fx,
}

pub open spec fn mat4_identity_spec() -> Mat4 {
    Mat4 {
        m00: Fx { bits: FX_ONE },
        m01: Fx { bits: 0 },
        m02: Fx { bits: 0 },
        m03: Fx { bits: 0 },
        m10: Fx { bits: 0 },
        m11: Fx { bits: FX_ONE },
        m12: Fx { bits: 0 },
        m13: Fx { bits: 0 },
        m20: Fx { bits: 0 },
        m21: Fx { bits: 0 },
        m22: Fx { bits: FX_ONE },
        m23: Fx { bits: 0 },
        m30: Fx { bits: 0 },
        m31: Fx { bits: 0 },
        m32: Fx { bits: 0 },
        m33: Fx { bits: FX_ONE },
    }
}

pub fn mat4_identity() -> (r: Mat4)
    ensures
        r == mat4_identity_spec(),
{
    Mat4 {
        m00: Fx { bits: FX_ONE },
        m01: Fx { bits: 0 },
        m02: Fx { bits: 0 },
        m03: Fx { bits: 0 },
        m10: Fx { bits: 0 },
        m11: Fx { bits: FX_ONE },
        m12: Fx { bits: 0 },
        m13: Fx { bits: 0 },
        m20: Fx { bits: 0 },
        m21: Fx { bits: 0 },
        m22: Fx { bits: FX_ONE },
        m23: Fx { bits: 0 },
        m30: Fx { bits: 0 },
        m31: Fx { bits: 0 },
        m32: Fx { bits: 0 },
        m33: Fx { bits: FX_ONE },
    }
}

#[verifier::opaque]
pub open spec fn mat4_transpose_spec(m: Mat4) -> Mat4 {
    Mat4 {
        m00: m.m00,
        m01: m.m10,
        m02: m.m20,
        m03: m.m30,
        m10: m.m01,
        m11: m.m11,
        m12: m.m21,
        m13: m.m31,
        m20: m.m02,
        m21: m.m12,
        m22: m.m22,
        m23: m.m32,
        m30: m.m03,
        m31: m.m13,
        m32: m.m23,
        m33: m.m33,
    }
}

pub fn mat4_transpose(m: &Mat4) -> (r: Mat4)
    ensures
        r == mat4_transpose_spec(*m),
{
    proof {
        reveal(mat4_transpose_spec);
    }
    Mat4 {
        m00: m.m00,
        m01: m.m10,
        m02: m.m20,
        m03: m.m30,
        m10: m.m01,
        m11: m.m11,
        m12: m.m21,
        m13: m.m31,
        m20: m.m02,
        m21: m.m12,
        m22: m.m22,
        m23: m.m32,
        m30: m.m03,
        m31: m.m13,
        m32: m.m23,
        m33: m.m33,
    }
}

/// Transposition fixes the identity matrix.
pub proof fn lemma_mat4_transpose_identity()
    ensures
        mat4_transpose_spec(mat4_identity_spec()) == mat4_identity_spec(),
{
    reveal(mat4_transpose_spec);
}

/// Inner product of a row of the left factor with a column of the right.
pub open spec fn dot4_spec(a0: Fx, a1: Fx, a2: Fx, a3: Fx, b0: Fx, b1: Fx, b2: Fx, b3: Fx) -> Fx {
    fx_addv(
        fx_addv(fx_addv(fx_mulv(a0, b0), fx_mulv(a1, b1)), fx_mulv(a2, b2)),
        fx_mulv(a3, b3),
    )
}

fn dot4(a0: Fx, a1: Fx, a2: Fx, a3: Fx, b0: Fx, b1: Fx, b2: Fx, b3: Fx) -> (r: Fx)
    ensures
        r == dot4_spec(a0, a1, a2, a3, b0, b1, b2, b3),
{
    fx_add(
        fx_add(fx_add(fx_mul(a0, b0), fx_mul(a1, b1)), fx_mul(a2, b2)),
        fx_mul(a3, b3),
    )
}

/// Matrix product `a * b` (column-vector convention).
#[verifier::opaque]
pub open spec fn mat4_mul_spec(a: Mat4, b: Mat4) -> Mat4 {
    Mat4 {
        m00: dot4_spec(a.m00, a.m01, a.m02, a.m03, b.m00, b.m10, b.m20, b.m30),
        m01: dot4_spec(a.m00, a.m01, a.m02, a.m03, b.m01, b.m11, b.m21, b.m31),
        m02: dot4_spec(a.m00, a.m01, a.m02, a.m03, b.m02, b.m12, b.m22, b.m32),
        m03: dot4_spec(a.m00, a.m01, a.m02, a.m03, b.m03, b.m13, b.m23, b.m33),
        m10: dot4_spec(a.m10, a.m11, a.m12, a.m13, b.m00, b.m10, b.m20, b.m30),
        m11: dot4_spec(a.m10, a.m11, a.m12, a.m13, b.m01, b.m11, b.m21, b.m31),
        m12: dot4_spec(a.m10, a.m11, a.m12, a.m13, b.m02, b.m12, b.m22, b.m32),
        m13: dot4_spec(a.m10, a.m11, a.m12, a.m13, b.m03, b.m13, b.m23, b.m33),
        m20: dot4_spec(a.m20, a.m21, a.m22, a.m23, b.m00, b.m10, b.m20, b.m30),
        m21: dot4_spec(a.m20, a.m21, a.m22, a.m23, b.m01, b.m11, b.m21, b.m31),
        m22: dot4_spec(a.m20, a.m21, a.m22, a.m23, b.m02, b.m12, b.m22, b.m32),
        m23: dot4_spec(a.m20, a.m21, a.m22, a.m23, b.m03, b.m13, b.m23, b.m33),
        m30: dot4_spec(a.m30, a.m31, a.m32, a.m33, b.m00, b.m10, b.m20, b.m30),
        m31: dot4_spec(a.m30, a.m31, a.m32, a.m33, b.m01, b.m11, b.m21, b.m31),
        m32: dot4_spec(a.m30, a.m31, a.m32, a.m33, b.m02, b.m12, b.m22, b.m32),
        m33: dot4_spec(a.m30, a.m31, a.m32, a.m33, b.m03, b.m13, b.m23, b.m33),
    }
}

pub fn mat4_mul(a: &Mat4, b: &Mat4) -> (r: Mat4)
    ensures
        r == mat4_mul_spec(*a, *b),
{
    proof {
        reveal(mat4_mul_spec);
    }
    let a = *a;
    let b = *b;
    Mat4 {
        m00: dot4(a.m00, a.m01, a.m02, a.m03, b.m00, b.m10, b.m20, b.m30),
        m01: dot4(a.m00, a.m01, a.m02, a.m03, b.m01, b.m11, b.m21, b.m31),
        m02: dot4(a.m00, a.m01, a.m02, a.m03, b.m02, b.m12, b.m22, b.m32),
        m03: dot4(a.m00, a.m01, a.m02, a.m03, b.m03, b.m13, b.m23, b.m33),
        m10: dot4(a.m10, a.m11, a.m12, a.m13, b.m00, b.m10, b.m20, b.m30),
        m11: dot4(a.m10, a.m11, a.m12, a.m13, b.m01, b.m11, b.m21, b.m31),
        m12: dot4(a.m10, a.m11, a.m12, a.m13, b.m02, b.m12, b.m22, b.m32),
        m13: dot4(a.m10, a.m11, a.m12, a.m13, b.m03, b.m13, b.m23, b.m33),
        m20: dot4(a.m20, a.m21, a.m22, a.m23, b.m00, b.m10, b.m20, b.m30),
        m21: dot4(a.m20, a.m21, a.m22, a.m23, b.m01, b.m11, b.m21, b.m31),
        m22: dot4(a.m20, a.m21, a.m22, a.m23, b.m02, b.m12, b.m22, b.m32),
        m23: dot4(a.m20, a.m21, a.m22, a.m23, b.m03, b.m13, b.m23, b.m33),
        m30: dot4(a.m30, a.m31, a.m32, a.m33, b.m00, b.m10, b.m20, b.m30),
        m31: dot4(a.m30, a.m31, a.m32, a.m33, b.m01, b.m11, b.m21, b.m31),
        m32: dot4(a.m30, a.m31, a.m32, a.m33, b.m02, b.m12, b.m22, b.m32),
        m33: dot4(a.m30, a.m31, a.m32, a.m33, b.m03, b.m13, b.m23, b.m33),
    }
}

/// The local transform of a TRS triple: `translation * rotation * scale`
/// (rotation from the quaternion, columns scaled, translation in the last
/// column).
#[verifier::opaque]
pub open spec fn mat4_trs_spec(t: Fx3, rq: Quat, s: Fx3) -> Mat4 {
    let one = Fx { bits: FX_ONE };
    let xx = fx_mulv(rq.x, rq.x);
    let yy = fx_mulv(rq.y, rq.y);
    let zz = fx_mulv(rq.z, rq.z);
    let xy = fx_mulv(rq.x, rq.y);
    let xz = fx_mulv(rq.x, rq.z);
    let yz = fx_mulv(rq.y, rq.z);
    let xw = fx_mulv(rq.x, rq.w);
    let yw = fx_mulv(rq.y, rq.w);
    let zw = fx_mulv(rq.z, rq.w);
    let syz = fx_addv(yy, zz);
    let sxz = fx_addv(xx, zz);
    let sxy = fx_addv(xx, yy);
    let r00 = fx_subv(one, fx_addv(syz, syz));
    let r11 = fx_subv(one, fx_addv(sxz, sxz));
    let r22 = fx_subv(one, fx_addv(sxy, sxy));
    let d01 = fx_subv(xy, zw);
    let r01 = fx_addv(d01, d01);
    let d02 = fx_addv(xz, yw);
    let r02 = fx_addv(d02, d02);
    let d10 = fx_addv(xy, zw);
    let r10 = fx_addv(d10, d10);
    let d12 = fx_subv(yz, xw);
    let r12 = fx_addv(d12, d12);
    let d20 = fx_subv(xz, yw);
    let r20 = fx_addv(d20, d20);
    let d21 = fx_addv(yz, xw);
    let r21 = fx_addv(d21, d21);
    Mat4 {
        m00: fx_mulv(r00, s.x),
        m01: fx_mulv(r01, s.y),
        m02: fx_mulv(r02, s.z),
        m03: t.x,
        m10: fx_mulv(r10, s.x),
        m11: fx_mulv(r11, s.y),
        m12: fx_mulv(r12, s.z),
        m13: t.y,
        m20: fx_mulv(r20, s.x),
        m21: fx_mulv(r21, s.y),
        m22: fx_mulv(r22, s.z),
        m23: t.z,
        m30: Fx { bits: 0 },
        m31: Fx { bits: 0 },
        m32: Fx { bits: 0 },
        m33: Fx { bits: FX_ONE },
    }
}

pub fn mat4_trs(t: &Fx3, rq: &Quat, s: &Fx3) -> (r: Mat4)
    ensures
        r == mat4_trs_spec(*t, *rq, *s),
{
    proof {
        reveal(mat4_trs_spec);
    }
    let t = *t;
    let rq = *rq;
    let s = *s;
    let one = Fx { bits: FX_ONE };
    let xx = fx_mul(rq.x, rq.x);
    let yy = fx_mul(rq.y, rq.y);
    let zz = fx_mul(rq.z, rq.z);
    let xy = fx_mul(rq.x, rq.y);
    let xz = fx_mul(rq.x, rq.z);
    let yz = fx_mul(rq.y, rq.z);
    let xw = fx_mul(rq.x, rq.w);
    let yw = fx_mul(rq.y, rq.w);
    let zw = fx_mul(rq.z, rq.w);
    let syz = fx_add(yy, zz);
    let sxz = fx_add(xx, zz);
    let sxy = fx_add(xx, yy);
    let r00 = fx_sub(one, fx_add(syz, syz));
    let r11 = fx_sub(one, fx_add(sxz, sxz));
    let r22 = fx_sub(one, fx_add(sxy, sxy));
    let d01 = fx_sub(xy, zw);
    let r01 = fx_add(d01, d01);
    let d02 = fx_add(xz, yw);
    let r02 = fx_add(d02, d02);
    let d10 = fx_add(xy, zw);
    let r10 = fx_add(d10, d10);
    let d12 = fx_sub(yz, xw);
    let r12 = fx_add(d12, d12);
    let d20 = fx_sub(xz, yw);
    let r20 = fx_add(d20, d20);
    let d21 = fx_add(yz, xw);
    let r21 = fx_add(d21, d21);
    Mat4 {
        m00: fx_mul(r00, s.x),
        m01: fx_mul(r01, s.y),
        m02: fx_mul(r02, s.z),
        m03: t.x,
        m10: fx_mul(r10, s.x),
        m11: fx_mul(r11, s.y),
        m12: fx_mul(r12, s.z),
        m13: t.y,
        m20: fx_mul(r20, s.x),
        m21: fx_mul(r21, s.y),
        m22: fx_mul(r22, s.z),
        m23: t.z,
        m30: Fx { bits: 0 },
        m31: Fx { bits: 0 },
        m32: Fx { bits: 0 },
        m33: Fx { bits: FX_ONE },
    }
}

/// General inverse by adjugate over determinant, each entry divided by the
/// determinant in fixed point.  A singular matrix (zero fixed-point
/// determinant) inverts to the identity, keeping inverse-bind construction
/// total.
#[verifier::opaque]
pub open spec fn mat4_inverse_spec(a: Mat4) -> Mat4 {
    let s0 = fx_subv(fx_mulv(a.m00, a.m11), fx_mulv(a.m10, a.m01));
    let s1 = fx_subv(fx_mulv(a.m00, a.m12), fx_mulv(a.m10, a.m02));
    let s2 = fx_subv(fx_mulv(a.m00, a.m13), fx_mulv(a.m10, a.m03));
    let s3 = fx_subv(fx_mulv(a.m01, a.m12), fx_mulv(a.m11, a.m02));
    let s4 = fx_subv(fx_mulv(a.m01, a.m13), fx_mulv(a.m11, a.m03));
    let s5 = fx_subv(fx_mulv(a.m02, a.m13), fx_mulv(a.m12, a.m03));
    let c5 = fx_subv(fx_mulv(a.m22, a.m33), fx_mulv(a.m32, a.m23));
    let c4 = fx_subv(fx_mulv(a.m21, a.m33), fx_mulv(a.m31, a.m23));
    let c3 = fx_subv(fx_mulv(a.m21, a.m32), fx_mulv(a.m31, a.m22));
    let c2 = fx_subv(fx_mulv(a.m20, a.m33), fx_mulv(a.m30, a.m23));
    let c1 = fx_subv(fx_mulv(a.m20, a.m32), fx_mulv(a.m30, a.m22));
    let c0 = fx_subv(fx_mulv(a.m20, a.m31), fx_mulv(a.m30, a.m21));
    let det = fx_addv(fx_subv(fx_addv(fx_addv(fx_subv(fx_mulv(s0, c5), fx_mulv(s1, c4)), fx_mulv(s2, c3)), fx_mulv(s3, c2)), fx_mulv(s4, c1)), fx_mulv(s5, c0));
    let b00 = fx_addv(fx_subv(fx_mulv(a.m11, c5), fx_mulv(a.m12, c4)), fx_mulv(a.m13, c3));
    let b01 = fx_subv(fx_subv(fx_mulv(a.m02, c4), fx_mulv(a.m01, c5)), fx_mulv(a.m03, c3));
    let b02 = fx_addv(fx_subv(fx_mulv(a.m31, s5), fx_mulv(a.m32, s4)), fx_mulv(a.m33, s3));
    let b03 = fx_subv(fx_subv(fx_mulv(a.m22, s4), fx_mulv(a.m21, s5)), fx_mulv(a.m23, s3));
    let b10 = fx_subv(fx_subv(fx_mulv(a.m12, c2), fx_mulv(a.m10, c5)), fx_mulv(a.m13, c1));
    let b11 = fx_addv(fx_subv(fx_mulv(a.m00, c5), fx_mulv(a.m02, c2)), fx_mulv(a.m03, c1));
    let b12 = fx_subv(fx_subv(fx_mulv(a.m32, s2), fx_mulv(a.m30, s5)), fx_mulv(a.m33, s1));
    let b13 = fx_addv(fx_subv(fx_mulv(a.m20, s5), fx_mulv(a.m22, s2)), fx_mulv(a.m23, s1));
    let b20 = fx_addv(fx_subv(fx_mulv(a.m10, c4), fx_mulv(a.m11, c2)), fx_mulv(a.m13, c0));
    let b21 = fx_subv(fx_subv(fx_mulv(a.m01, c2), fx_mulv(a.m00, c4)), fx_mulv(a.m03, c0));
    let b22 = fx_addv(fx_subv(fx_mulv(a.m30, s4), fx_mulv(a.m31, s2)), fx_mulv(a.m33, s0));
    let b23 = fx_subv(fx_subv(fx_mulv(a.m21, s2), fx_mulv(a.m20, s4)), fx_mulv(a.m23, s0));
    let b30 = fx_subv(fx_subv(fx_mulv(a.m11, c1), fx_mulv(a.m10, c3)), fx_mulv(a.m12, c0));
    let b31 = fx_addv(fx_subv(fx_mulv(a.m00, c3), fx_mulv(a.m01, c1)), fx_mulv(a.m02, c0));
    let b32 = fx_subv(fx_subv(fx_mulv(a.m31, s1), fx_mulv(a.m30, s3)), fx_mulv(a.m32, s0));
    let b33 = fx_addv(fx_subv(fx_mulv(a.m20, s3), fx_mulv(a.m21, s1)), fx_mulv(a.m22, s0));
    if det.bits == 0 {
        mat4_identity_spec()
    } else {
        Mat4 {
            m00: fx_divv(b00, det),
            m01: fx_divv(b01, det),
            m02: fx_divv(b02, det),
            m03: fx_divv(b03, det),
            m10: fx_divv(b10, det),
            m11: fx_divv(b11, det),
            m12: fx_divv(b12, det),
            m13: fx_divv(b13, det),
            m20: fx_divv(b20, det),
            m21: fx_divv(b21, det),
            m22: fx_divv(b22, det),
            m23: fx_divv(b23, det),
            m30: fx_divv(b30, det),
            m31: fx_divv(b31, det),
            m32: fx_divv(b32, det),
            m33: fx_divv(b33, det),
        }
    }
}

pub fn mat4_inverse(m: &Mat4) -> (r: Mat4)
    ensures
        r == mat4_inverse_spec(*m),
{
    proof {
        reveal(mat4_inverse_spec);
    }
    let a = *m;
    let s0 = fx_sub(fx_mul(a.m00, a.m11), fx_mul(a.m10, a.m01));
    let s1 = fx_sub(fx_mul(a.m00, a.m12), fx_mul(a.m10, a.m02));
    let s2 = fx_sub(fx_mul(a.m00, a.m13), fx_mul(a.m10, a.m03));
    let s3 = fx_sub(fx_mul(a.m01, a.m12), fx_mul(a.m11, a.m02));
    let s4 = fx_sub(fx_mul(a.m01, a.m13), fx_mul(a.m11, a.m03));
    let s5 = fx_sub(fx_mul(a.m02, a.m13), fx_mul(a.m12, a.m03));
    let c5 = fx_sub(fx_mul(a.m22, a.m33), fx_mul(a.m32, a.m23));
    let c4 = fx_sub(fx_mul(a.m21, a.m33), fx_mul(a.m31, a.m23));
    let c3 = fx_sub(fx_mul(a.m21, a.m32), fx_mul(a.m31, a.m22));
    let c2 = fx_sub(fx_mul(a.m20, a.m33), fx_mul(a.m30, a.m23));
    let c1 = fx_sub(fx_mul(a.m20, a.m32), fx_mul(a.m30, a.m22));
    let c0 = fx_sub(fx_mul(a.m20, a.m31), fx_mul(a.m30, a.m21));
    let det = fx_add(fx_sub(fx_add(fx_add(fx_sub(fx_mul(s0, c5), fx_mul(s1, c4)), fx_mul(s2, c3)), fx_mul(s3, c2)), fx_mul(s4, c1)), fx_mul(s5, c0));
    let b00 = fx_add(fx_sub(fx_mul(a.m11, c5), fx_mul(a.m12, c4)), fx_mul(a.m13, c3));
    let b01 = fx_sub(fx_sub(fx_mul(a.m02, c4), fx_mul(a.m01, c5)), fx_mul(a.m03, c3));
    let b02 = fx_add(fx_sub(fx_mul(a.m31, s5), fx_mul(a.m32, s4)), fx_mul(a.m33, s3));
    let b03 = fx_sub(fx_sub(fx_mul(a.m22, s4), fx_mul(a.m21, s5)), fx_mul(a.m23, s3));
    let b10 = fx_sub(fx_sub(fx_mul(a.m12, c2), fx_mul(a.m10, c5)), fx_mul(a.m13, c1));
    let b11 = fx_add(fx_sub(fx_mul(a.m00, c5), fx_mul(a.m02, c2)), fx_mul(a.m03, c1));
    let b12 = fx_sub(fx_sub(fx_mul(a.m32, s2), fx_mul(a.m30, s5)), fx_mul(a.m33, s1));
    let b13 = fx_add(fx_sub(fx_mul(a.m20, s5), fx_mul(a.m22, s2)), fx_mul(a.m23, s1));
    let b20 = fx_add(fx_sub(fx_mul(a.m10, c4), fx_mul(a.m11, c2)), fx_mul(a.m13, c0));
    let b21 = fx_sub(fx_sub(fx_mul(a.m01, c2), fx_mul(a.m00, c4)), fx_mul(a.m03, c0));
    let b22 = fx_add(fx_sub(fx_mul(a.m30, s4), fx_mul(a.m31, s2)), fx_mul(a.m33, s0));
    let b23 = fx_sub(fx_sub(fx_mul(a.m21, s2), fx_mul(a.m20, s4)), fx_mul(a.m23, s0));
    let b30 = fx_sub(fx_sub(fx_mul(a.m11, c1), fx_mul(a.m10, c3)), fx_mul(a.m12, c0));
    let b31 = fx_add(fx_sub(fx_mul(a.m00, c3), fx_mul(a.m01, c1)), fx_mul(a.m02, c0));
    let b32 = fx_sub(fx_sub(fx_mul(a.m31, s1), fx_mul(a.m30, s3)), fx_mul(a.m32, s0));
    let b33 = fx_add(fx_sub(fx_mul(a.m20, s3), fx_mul(a.m21, s1)), fx_mul(a.m22, s0));
    if det.bits == 0 {
        mat4_identity()
    } else {
        Mat4 {
            m00: fx_div(b00, det),
            m01: fx_div(b01, det),
            m02: fx_div(b02, det),
            m03: fx_div(b03, det),
            m10: fx_div(b10, det),
            m11: fx_div(b11, det),
            m12: fx_div(b12, det),
            m13: fx_div(b13, det),
            m20: fx_div(b20, det),
            m21: fx_div(b21, det),
            m22: fx_div(b22, det),
            m23: fx_div(b23, det),
            m30: fx_div(b30, det),
            m31: fx_div(b31, det),
            m32: fx_div(b32, det),
            m33: fx_div(b33, det),
        }
    }
}

} // verus!
