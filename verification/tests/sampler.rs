//! The pose sampler: bind-pose composition, hierarchy ordering and
//! rotation interpolation.

use std::collections::HashMap;

use skelanim::anim::skeletal::{pose_hierarchy, sample_bear, SkeletalAnimation, TRS};
use skelanim::fx::{fx_from_int, Fx, FX_ONE};
use skelanim::linear::{fx3_new, fx3_one, fx3_zero, quat_identity, quat_new, quat_slerp, Quat};
use skelanim::matrix::{mat4_identity, mat4_trs, Mat4};
use skelanim::model::{Joint, Mesh, Rig, RigRemapTable, SkeletalMesh, VertexAttribs};

fn identity_trs() -> TRS {
    TRS { translation: fx3_zero(), rotation: quat_identity(), scale: fx3_one() }
}

fn empty_mesh() -> Mesh {
    Mesh {
        attribs: VertexAttribs {
            position: vec![],
            normal: vec![],
            tangent: vec![],
            binormal: vec![],
            color: vec![],
            uv0: vec![],
            uv1: vec![],
            joint_indices: vec![],
            joint_weights: vec![],
        },
        indices: vec![],
    }
}

/// A two-joint chain: root translated by (1,0,0), child by (0,2,0); bind
/// locals match, inverse binds left at identity so world products are
/// directly observable.
fn chain_mesh() -> SkeletalMesh {
    let root = Joint {
        index: 0,
        parent_index: 0,
        translation: fx3_new(fx_from_int(1), Fx { bits: 0 }, Fx { bits: 0 }),
        rotation: quat_identity(),
        scale: fx3_one(),
    };
    let child = Joint {
        index: 1,
        parent_index: 0,
        translation: fx3_new(Fx { bits: 0 }, fx_from_int(2), Fx { bits: 0 }),
        rotation: quat_identity(),
        scale: fx3_one(),
    };
    let rig = Rig {
        joint_transforms: vec![root, child],
        joint_count: 2,
        joint_names: vec!["root".to_owned(), "child".to_owned()],
        joint_children: vec![vec![1], vec![]],
        joint_parents: vec![0, 0],
        remap_table: RigRemapTable { joints: HashMap::new() },
    };
    let locals = vec![
        mat4_trs(&root.translation, &root.rotation, &root.scale),
        mat4_trs(&child.translation, &child.rotation, &child.scale),
    ];
    SkeletalMesh {
        mesh: empty_mesh(),
        rig,
        joint_transforms: vec![
            TRS { translation: root.translation, rotation: root.rotation, scale: root.scale },
            TRS { translation: child.translation, rotation: child.rotation, scale: child.scale },
        ],
        joint_local_transforms: locals,
        inverse_bind_matrices: vec![mat4_identity(), mat4_identity()],
    }
}

fn assert_mat_eq(a: &Mat4, b: &Mat4) {
    assert_eq!(a, b);
}

#[test]
fn pose_composition_identity_at_bind_pose() {
    // a one-joint rig whose bind pose is the identity: sampling at time 0
    // with an animation equal to the bind pose reproduces the identity
    // through composition (posed = world * inverse_bind degenerates)
    let rig = Rig {
        joint_transforms: vec![Joint {
            index: 0,
            parent_index: 0,
            translation: fx3_zero(),
            rotation: quat_identity(),
            scale: fx3_one(),
        }],
        joint_count: 1,
        joint_names: vec!["root".to_owned()],
        joint_children: vec![vec![]],
        joint_parents: vec![0],
        remap_table: RigRemapTable { joints: HashMap::new() },
    };
    let mesh = SkeletalMesh {
        mesh: empty_mesh(),
        rig,
        joint_transforms: vec![identity_trs()],
        joint_local_transforms: vec![mat4_identity()],
        inverse_bind_matrices: vec![mat4_identity()],
    };
    let anim = SkeletalAnimation {
        name: "bind".to_owned(),
        sample_rate: Fx { bits: 30 * FX_ONE },
        num_frames: 1,
        min_time: Fx { bits: 0 },
        max_time: fx_from_int(1),
        joints: vec![vec![identity_trs()]],
    };
    let out = sample_bear(&mesh, &anim, Fx { bits: 0 });
    assert_eq!(out.len(), 1);
    assert_mat_eq(&out[0], &mat4_identity());
}

#[test]
fn hierarchy_composes_parent_before_child() {
    // with no animation rows, the sampler feeds the bind locals through
    // composition; identity inverse binds expose the raw world products
    let mesh = chain_mesh();
    let anim = SkeletalAnimation {
        name: "none".to_owned(),
        sample_rate: Fx { bits: 30 * FX_ONE },
        num_frames: 0,
        min_time: Fx { bits: 0 },
        max_time: Fx { bits: 0 },
        joints: vec![],
    };
    let out = sample_bear(&mesh, &anim, Fx { bits: 0 });
    assert_eq!(out.len(), 2);
    // output matrices are transposed: translation moves to the last row
    assert_eq!(out[0].m30.bits, FX_ONE);
    assert_eq!(out[0].m31.bits, 0);
    // child world translation = parent (1,0,0) plus child (0,2,0)
    assert_eq!(out[1].m30.bits, FX_ONE);
    assert_eq!(out[1].m31.bits, 2 * FX_ONE);
    assert_eq!(out[1].m32.bits, 0);
    assert_eq!(out[1].m33.bits, FX_ONE);
}

#[test]
fn pose_hierarchy_touches_only_the_subtree() {
    let mesh = chain_mesh();
    let mut mats = mesh.joint_local_transforms.clone();
    let ident = mat4_identity();
    // compose only the child's subtree: the root entry stays the local
    pose_hierarchy(&mesh.rig, &mut mats, &mesh.inverse_bind_matrices, 1, &ident);
    assert_mat_eq(&mats[0], &mesh.joint_local_transforms[0]);
    assert_eq!(mats[1].m31.bits, 2 * FX_ONE);
}

#[test]
fn sampling_at_zero_holds_the_first_frame() {
    let mesh = chain_mesh();
    let t = fx3_new(fx_from_int(4), Fx { bits: 0 }, Fx { bits: 0 });
    let frame0 = TRS { translation: t, rotation: quat_identity(), scale: fx3_one() };
    let frame1 = TRS {
        translation: fx3_new(fx_from_int(9), Fx { bits: 0 }, Fx { bits: 0 }),
        rotation: quat_identity(),
        scale: fx3_one(),
    };
    let anim = SkeletalAnimation {
        name: "clip".to_owned(),
        sample_rate: Fx { bits: 30 * FX_ONE },
        num_frames: 2,
        min_time: Fx { bits: 0 },
        max_time: fx_from_int(1),
        joints: vec![vec![frame0, frame1], vec![identity_trs(), identity_trs()]],
    };
    let out = sample_bear(&mesh, &anim, Fx { bits: 0 });
    // root local = translation 4 exactly (factor 0 holds the left frame);
    // identity inverse binds leave the world product visible, transposed
    assert_eq!(out[0].m30.bits, 4 * FX_ONE);
    // child = root world * identity local
    assert_eq!(out[1].m30.bits, 4 * FX_ONE);
    assert_eq!(out[1].m31.bits, 0);
}

#[test]
fn slerp_midpoint_is_a_unit_quaternion() {
    // two unit rotations a quarter turn apart
    let a = quat_identity();
    let b = quat_new(Fx { bits: 0 }, Fx { bits: 0 }, Fx { bits: 46341 }, Fx { bits: 46341 });
    let m = quat_slerp(&a, &b, Fx { bits: 32768 });
    let n: i128 = (m.x.bits as i128) * (m.x.bits as i128) + (m.y.bits as i128) * (m.y.bits
        as i128) + (m.z.bits as i128) * (m.z.bits as i128) + (m.w.bits as i128) * (m.w.bits
        as i128);
    let unit: i128 = (FX_ONE as i128) * (FX_ONE as i128);
    assert!((n - unit).abs() < 1_000_000, "norm squared {n} is not close to {unit}");
    // the blend leans toward neither endpoint
    assert!(m.z.bits > 0 && m.w.bits > m.z.bits);
}

#[test]
fn slerp_of_identical_rotations_returns_them() {
    let q = quat_new(Fx { bits: 0 }, Fx { bits: 0 }, Fx { bits: 46341 }, Fx { bits: 46341 });
    let m = quat_slerp(&q, &q, Fx { bits: 32768 });
    // nearly-identical inputs (here: equal) come back unchanged up to
    // renormalization granularity
    assert!((m.z.bits - q.z.bits).abs() <= 2);
    assert!((m.w.bits - q.w.bits).abs() <= 2);
    // endpoints are exact
    let e0 = quat_slerp(&q, &quat_identity(), Fx { bits: 0 });
    assert_eq!(e0, q);
    let e1 = quat_slerp(&quat_identity(), &q, Fx { bits: FX_ONE });
    assert_eq!(e1, q);
}

#[test]
fn slerp_takes_the_shortest_arc() {
    // b and -b are the same rotation; interpolation must blend toward the
    // cover on the same side as a
    let a = quat_identity();
    let b = quat_new(Fx { bits: 0 }, Fx { bits: 0 }, Fx { bits: -46341 }, Fx { bits: -46341 });
    let m = quat_slerp(&a, &b, Fx { bits: 32768 });
    // the negated cover of b has positive w, so the blend keeps w positive
    assert!(m.w.bits > 0);
    assert!(m.z.bits > 0);
}
