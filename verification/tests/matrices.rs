//! Fixed-point matrix kernels: identity, products, TRS assembly and the
//! exact inverse of rigid translations.

use skelanim::fx::{fx_from_int, Fx, FX_ONE};
use skelanim::linear::{fx3_new, fx3_one, quat_identity, quat_new};
use skelanim::matrix::{mat4_identity, mat4_inverse, mat4_mul, mat4_transpose, mat4_trs};

#[test]
fn identity_is_a_multiplicative_unit() {
    let t = fx3_new(fx_from_int(1), fx_from_int(2), fx_from_int(3));
    let m = mat4_trs(&t, &quat_identity(), &fx3_one());
    let i = mat4_identity();
    assert_eq!(mat4_mul(&i, &m), m);
    assert_eq!(mat4_mul(&m, &i), m);
    assert_eq!(mat4_transpose(&mat4_transpose(&m)), m);
}

#[test]
fn trs_assembles_translation_in_the_last_column() {
    let t = fx3_new(fx_from_int(4), fx_from_int(5), fx_from_int(6));
    let s = fx3_new(fx_from_int(2), fx_from_int(3), fx_from_int(1));
    let m = mat4_trs(&t, &quat_identity(), &s);
    assert_eq!(m.m03.bits, 4 * FX_ONE);
    assert_eq!(m.m13.bits, 5 * FX_ONE);
    assert_eq!(m.m23.bits, 6 * FX_ONE);
    // identity rotation leaves the scale on the diagonal
    assert_eq!(m.m00.bits, 2 * FX_ONE);
    assert_eq!(m.m11.bits, 3 * FX_ONE);
    assert_eq!(m.m22.bits, FX_ONE);
    assert_eq!(m.m33.bits, FX_ONE);
    assert_eq!(m.m30.bits, 0);
}

#[test]
fn quarter_turn_rotation_matrix() {
    // rotating a quarter turn about z maps x to y; the quaternion has
    // z = w = sqrt(1/2), which squares to just under one half in Q16
    let h = Fx { bits: 46341 };
    let q = quat_new(Fx { bits: 0 }, Fx { bits: 0 }, h, h);
    let m = mat4_trs(&fx3_new(Fx { bits: 0 }, Fx { bits: 0 }, Fx { bits: 0 }), &q, &fx3_one());
    // column 0 is close to (0, 1, 0)
    assert!(m.m00.bits.abs() < 16);
    assert!((m.m10.bits - FX_ONE).abs() < 16);
    assert_eq!(m.m20.bits, 0);
    // column 1 is close to (-1, 0, 0)
    assert!((m.m01.bits + FX_ONE).abs() < 16);
    assert!(m.m11.bits.abs() < 16);
}

#[test]
fn translation_inverts_exactly() {
    let t = fx3_new(fx_from_int(7), fx_from_int(-2), fx_from_int(9));
    let m = mat4_trs(&t, &quat_identity(), &fx3_one());
    let inv = mat4_inverse(&m);
    assert_eq!(inv.m03.bits, -7 * FX_ONE);
    assert_eq!(inv.m13.bits, 2 * FX_ONE);
    assert_eq!(inv.m23.bits, -9 * FX_ONE);
    assert_eq!(inv.m00.bits, FX_ONE);
    // the product with the original is the identity, exactly
    assert_eq!(mat4_mul(&m, &inv), mat4_identity());
}

#[test]
fn singular_matrices_invert_to_identity() {
    let zero_scale = fx3_new(Fx { bits: 0 }, Fx { bits: 0 }, Fx { bits: 0 });
    let m = mat4_trs(
        &fx3_new(Fx { bits: 0 }, Fx { bits: 0 }, Fx { bits: 0 }),
        &quat_identity(),
        &zero_scale,
    );
    assert_eq!(mat4_inverse(&m), mat4_identity());
}
