//! Dense skeletal animation and the runtime pose sampler.

use vstd::prelude::*;

verus! {

use crate::fx::{
    Fx, FX_ONE, fx_div, fx_divv, fx_floor_index, fx_floor_index_spec, fx_from_int_spec,
    fx_from_usize, fx_from_usize_succ, fx_inverse_lerp, fx_invlerpv, fx_mul, fx_mulv, fx_one,
};
use crate::linear::{Fx3, Quat, fx3_lerp, fx3_lerp_spec, fx3_one, fx3_one_spec, fx3_zero,
    fx3_zero_spec, lemma_slerp_in_unit_ball, quat_identity, quat_identity_spec,
    quat_in_unit_ball, quat_slerp, quat_slerp_spec};
use crate::matrix::{
    Mat4, mat4_identity, mat4_identity_spec, mat4_mul, mat4_mul_spec, mat4_transpose,
    mat4_transpose_spec, mat4_trs, mat4_trs_spec,
};
use crate::model::{Rig, SkeletalMesh, rig_wf, skeletal_mesh_wf};

/// Densely packed joint transforms at `sample_rate`, built once at import
/// and read-only afterwards.
#[derive(Debug)]
pub struct SkeletalAnimation {
    pub name: String,
    /// channel sample rate in Hz
    pub sample_rate: Fx,
    pub num_frames: usize,
    pub min_time: Fx,
    pub max_time: Fx,
    /// vec of joint indices to vec of TRS per frame
    pub joints: Vec<Vec<TRS>>,
}

/// Translation-rotation-scale triple: the atomic pose unit.
#[derive(Copy, Clone, Debug, PartialEq, Eq, Structural)]
pub struct TRS {
    pub translation: Fx3,
    pub rotation: Quat,
    pub scale: Fx3,
}

/// The identity pose: zero translation, identity rotation, unit scale.
pub open spec fn trs_identity_spec() -> TRS {
    TRS { translation: fx3_zero_spec(), rotation: quat_identity_spec(), scale: fx3_one_spec() }
}

impl Default for TRS {
    fn default() -> (r: Self)
        ensures
            r == trs_identity_spec(),
    {
        TRS { translation: fx3_zero(), rotation: quat_identity(), scale: fx3_one() }
    }
}

/// Keyframe interpolation modes an interchange file may declare.  Only the
/// linear treatment is honored by this importer.
pub enum InterpMethod {
    Step,
    Linear,
    CubicSpline,
}

/// One dense frame step: `1 / sample_rate` seconds.
pub open spec fn time_step_spec(sample_rate: Fx) -> Fx {
    fx_divv(Fx { bits: FX_ONE }, sample_rate)
}

/// The TRS a dense per-joint frame row holds at a continuous query time:
/// the bracket is `floor(time / step)` and its successor, a missing left
/// frame reads as the identity pose, a missing right frame holds the left
/// one, and the three properties interpolate linearly (rotation along the
/// shortest arc).
#[verifier::opaque]
pub open spec fn sample_channel_spec(frames: Seq<TRS>, time: Fx, step: Fx) -> TRS {
    let il = fx_floor_index_spec(fx_divv(time, step).bits as int);
    let time_left = fx_mulv(step, Fx { bits: fx_from_int_spec(il) as i64 });
    let time_right = fx_mulv(step, Fx { bits: fx_from_int_spec(il + 1) as i64 });
    let frame_left = if il < frames.len() {
        frames[il]
    } else {
        trs_identity_spec()
    };
    let frame_right = if il + 1 < frames.len() {
        frames[il + 1]
    } else {
        frame_left
    };
    let alpha = fx_invlerpv(time_left, time_right, time);
    TRS {
        translation: fx3_lerp_spec(frame_left.translation, frame_right.translation, alpha),
        rotation: quat_slerp_spec(frame_left.rotation, frame_right.rotation, alpha),
        scale: fx3_lerp_spec(frame_left.scale, frame_right.scale, alpha),
    }
}

/// The local matrix each joint feeds into hierarchy composition: the
/// sampled animation TRS where the animation has a row for the joint, the
/// bind-pose local matrix otherwise.
pub open spec fn sampled_locals_spec(mesh: SkeletalMesh, anim: SkeletalAnimation, time: Fx) -> Seq<
    Mat4,
> {
    Seq::new(
        mesh.rig.joint_count as nat,
        |j: int|
            if j < anim.joints.len() {
                let trs = sample_channel_spec(
                    anim.joints@[j]@,
                    time,
                    time_step_spec(anim.sample_rate),
                );
                mat4_trs_spec(trs.translation, trs.rotation, trs.scale)
            } else {
                mesh.joint_local_transforms@[j]
            },
    )
}

/// Whether joint `k` lies in the subtree rooted at `root`, following the
/// parent chain (the root is its own parent; every other joint's parent has
/// a smaller index).
pub open spec fn in_subtree(parents: Seq<usize>, root: int, k: int) -> bool
    decreases k,
{
    if k < 0 || k >= parents.len() {
        false
    } else if k == root {
        true
    } else if k <= root {
        false
    } else if (parents[k] as int) < k {
        in_subtree(parents, root, parents[k] as int)
    } else {
        false
    }
}

/// Accumulated world matrix of joint `k` under the subtree rooted at
/// `root`, whose parent carries `parent_mat`: the product of all local
/// matrices down the parent chain.
pub open spec fn chain_world(
    parents: Seq<usize>,
    locals: Seq<Mat4>,
    root: int,
    parent_mat: Mat4,
    k: int,
) -> Mat4
    decreases k,
{
    if k < 0 || k >= parents.len() || k >= locals.len() {
        mat4_identity_spec()
    } else if k == root {
        mat4_mul_spec(parent_mat, locals[k])
    } else if k <= root {
        mat4_identity_spec()
    } else if (parents[k] as int) < k {
        mat4_mul_spec(
            chain_world(parents, locals, root, parent_mat, parents[k] as int),
            locals[k],
        )
    } else {
        mat4_identity_spec()
    }
}

/// In a well-formed rig every joint lies in the root's subtree: the parent
/// chain strictly descends until it reaches index 0.
pub proof fn lemma_all_in_root_subtree(parents: Seq<usize>, k: int)
    requires
        parents.len() > 0,
        forall|j: int| 1 <= j < parents.len() ==> (#[trigger] parents[j]) < j,
        0 <= k < parents.len(),
    ensures
        in_subtree(parents, 0, k),
    decreases k,
{
    if k > 0 {
        lemma_all_in_root_subtree(parents, parents[k] as int);
    }
}

/// The skinning matrix the sampler owes for joint `j`: the transposed
/// product of the joint's accumulated world matrix (from the sampled
/// locals, composed root-down) with its inverse-bind matrix.
pub open spec fn sample_bear_spec(
    mesh: SkeletalMesh,
    anim: SkeletalAnimation,
    time: Fx,
    j: int,
) -> Mat4 {
    mat4_transpose_spec(
        mat4_mul_spec(
            chain_world(
                mesh.rig.joint_parents@,
                sampled_locals_spec(mesh, anim, time),
                0,
                mat4_identity_spec(),
                j,
            ),
            mesh.inverse_bind_matrices@[j],
        ),
    )
}

/// The rotation the sampler interpolates stays in the unit ball: where
/// every dense frame's rotation has components of magnitude at most one,
/// so does the rotation sampled at any time (the identity fallback
/// included).
pub proof fn lemma_sampled_rotation_in_unit_ball(frames: Seq<TRS>, time: Fx, step: Fx)
    requires
        forall|k: int|
            0 <= k < frames.len() ==> quat_in_unit_ball((#[trigger] frames[k]).rotation),
    ensures
        quat_in_unit_ball(sample_channel_spec(frames, time, step).rotation),
{
    reveal(sample_channel_spec);
    let il = fx_floor_index_spec(fx_divv(time, step).bits as int);
    let time_left = fx_mulv(step, Fx { bits: fx_from_int_spec(il) as i64 });
    let time_right = fx_mulv(step, Fx { bits: fx_from_int_spec(il + 1) as i64 });
    let frame_left = if il < frames.len() {
        frames[il]
    } else {
        trs_identity_spec()
    };
    let frame_right = if il + 1 < frames.len() {
        frames[il + 1]
    } else {
        frame_left
    };
    let alpha = fx_invlerpv(time_left, time_right, time);
    lemma_slerp_in_unit_ball(frame_left.rotation, frame_right.rotation, alpha);
}

/// A pose whose scalar components stay inside the symmetric fixed-point
/// range (every representable import satisfies this; only the one
/// unrepresentable bit pattern `i64::MIN` falls outside).
pub open spec fn trs_repr_ok(t: TRS) -> bool {
    &&& t.translation.x.bits > i64::MIN && t.translation.y.bits > i64::MIN
        && t.translation.z.bits > i64::MIN
    &&& t.scale.x.bits > i64::MIN && t.scale.y.bits > i64::MIN && t.scale.z.bits > i64::MIN
}

/// Sampling a dense row at time 0 yields its first frame exactly: the
/// bracket is frames 0 and 1, and the interpolation factor resolves to 0,
/// which holds the left frame.
pub proof fn lemma_sample_at_zero_holds_first_frame(frames: Seq<TRS>, step: Fx)
    requires
        frames.len() > 0,
        step.bits > 0,
        trs_repr_ok(frames[0]),
    ensures
        sample_channel_spec(frames, Fx { bits: 0 }, step) == frames[0],
{
    reveal(sample_channel_spec);
    let zero = Fx { bits: 0 };
    vstd::arithmetic::div_mod::lemma_basic_div(0, crate::fx::abs_int(step.bits as int));
    vstd::arithmetic::div_mod::lemma_basic_div(0, 65536);
    assert(crate::fx::fx_div_spec(0, step.bits as int) == 0);
    assert(fx_floor_index_spec(0) == 0);
    assert(fx_from_int_spec(0) == 0);
    assert(fx_from_int_spec(1) == 65536);
    assert(step.bits as int * 0 == 0);
    assert(fx_mulv(step, Fx { bits: 0 }) == zero);
    vstd::arithmetic::div_mod::lemma_div_multiples_vanish(step.bits as int, 65536);
    assert(65536 * (step.bits as int) == (step.bits as int) * 65536) by (nonlinear_arith);
    assert(crate::fx::div_trunc(step.bits as int * 65536, 65536) == step.bits as int);
    assert(fx_mulv(step, Fx { bits: 65536 }) == step);
    let fl = frames[0];
    let fr = if 1 < frames.len() {
        frames[1]
    } else {
        fl
    };
    assert(fx_invlerpv(zero, step, zero) == zero);
    assert(fx3_lerp_spec(fl.translation, fr.translation, zero) == fl.translation);
    assert(fx3_lerp_spec(fl.scale, fr.scale, zero) == fl.scale);
    assert(quat_slerp_spec(fl.rotation, fr.rotation, zero) == fl.rotation);
}

/// Pose composition at the bind pose degenerates to the identity: when
/// the sampled local matrices equal the bind locals and each inverse-bind
/// matrix is the exact inverse of its accumulated bind-world matrix,
/// every output skinning matrix is the identity.
pub proof fn lemma_bind_pose_composes_to_identity(
    mesh: SkeletalMesh,
    anim: SkeletalAnimation,
    time: Fx,
)
    requires
        skeletal_mesh_wf(mesh),
        sampled_locals_spec(mesh, anim, time) == mesh.joint_local_transforms@,
        forall|j: int|
            0 <= j < mesh.rig.joint_count ==> mat4_mul_spec(
                chain_world(
                    mesh.rig.joint_parents@,
                    mesh.joint_local_transforms@,
                    0,
                    mat4_identity_spec(),
                    j,
                ),
                #[trigger] mesh.inverse_bind_matrices@[j],
            ) == mat4_identity_spec(),
    ensures
        forall|j: int|
            0 <= j < mesh.rig.joint_count ==> #[trigger] sample_bear_spec(mesh, anim, time, j)
                == mat4_identity_spec(),
{
    crate::matrix::lemma_mat4_transpose_identity();
}

/// Sampling at time 0 an animation whose every row's first frame is the
/// mesh's bind pose reproduces the bind pose composed through the
/// hierarchy: with exact inverse-bind matrices, every skinning matrix
/// degenerates to the identity.
pub proof fn lemma_bind_pose_sample_is_identity(mesh: SkeletalMesh, anim: SkeletalAnimation)
    requires
        skeletal_mesh_wf(mesh),
        anim.joints.len() == mesh.rig.joint_count,
        time_step_spec(anim.sample_rate).bits > 0,
        forall|j: int|
            0 <= j < mesh.rig.joint_count ==> (#[trigger] anim.joints@[j])@.len() > 0,
        forall|j: int|
            0 <= j < mesh.rig.joint_count ==> trs_repr_ok((#[trigger] anim.joints@[j])@[0]),
        forall|j: int|
            0 <= j < mesh.rig.joint_count ==> (#[trigger] mesh.joint_local_transforms@[j])
                == mat4_trs_spec(
                anim.joints@[j]@[0].translation,
                anim.joints@[j]@[0].rotation,
                anim.joints@[j]@[0].scale,
            ),
        forall|j: int|
            0 <= j < mesh.rig.joint_count ==> mat4_mul_spec(
                chain_world(
                    mesh.rig.joint_parents@,
                    mesh.joint_local_transforms@,
                    0,
                    mat4_identity_spec(),
                    j,
                ),
                #[trigger] mesh.inverse_bind_matrices@[j],
            ) == mat4_identity_spec(),
    ensures
        forall|j: int|
            0 <= j < mesh.rig.joint_count ==> #[trigger] sample_bear_spec(
                mesh,
                anim,
                Fx { bits: 0 },
                j,
            ) == mat4_identity_spec(),
{
    let zero = Fx { bits: 0 };
    assert forall|j: int| 0 <= j < mesh.rig.joint_count implies sampled_locals_spec(
        mesh,
        anim,
        zero,
    )[j] == mesh.joint_local_transforms@[j] by {
        lemma_sample_at_zero_holds_first_frame(
            anim.joints@[j]@,
            time_step_spec(anim.sample_rate),
        );
    }
    assert(sampled_locals_spec(mesh, anim, zero) =~= mesh.joint_local_transforms@);
    lemma_bind_pose_composes_to_identity(mesh, anim, zero);
}

/// Compose the subtree rooted at `joint_idx` through the hierarchy:
/// on entry `joint_matrices` holds each joint's local matrix; on return
/// every joint of the subtree holds the transpose of
/// `world * inverse_bind`, where `world` is the product of locals down from
/// `parent`, and every other joint is untouched.  Parent-before-child
/// ordering is the rig's well-formedness invariant, so one ascending pass
/// suffices.
pub fn pose_hierarchy(
    rig: &Rig,
    joint_matrices: &mut Vec<Mat4>,
    inverse_bind_matrices: &Vec<Mat4>,
    joint_idx: usize,
    parent: &Mat4,
)
    requires
        rig_wf(*rig),
        old(joint_matrices).len() == rig.joint_count,
        inverse_bind_matrices.len() == rig.joint_count,
        joint_idx < rig.joint_count,
    ensures
        final(joint_matrices).len() == rig.joint_count,
        forall|k: int|
            0 <= k < rig.joint_count ==> final(joint_matrices)@[k] == (if in_subtree(
                rig.joint_parents@,
                joint_idx as int,
                k,
            ) {
                mat4_transpose_spec(
                    mat4_mul_spec(
                        chain_world(
                            rig.joint_parents@,
                            old(joint_matrices)@,
                            joint_idx as int,
                            *parent,
                            k,
                        ),
                        inverse_bind_matrices@[k],
                    ),
                )
            } else {
                old(joint_matrices)@[k]
            }),
{
    let ghost mats0 = joint_matrices@;
    let ghost parents = rig.joint_parents@;
    let n = rig.joint_count;
    let mut worlds: Vec<Mat4> = Vec::new();
    let mut member: Vec<bool> = Vec::new();
    let mut k: usize = 0;
    while k < n
        invariant
            rig_wf(*rig),
            n == rig.joint_count,
            parents == rig.joint_parents@,
            joint_idx < n,
            inverse_bind_matrices.len() == n,
            joint_matrices.len() == n,
            mats0.len() == n,
            worlds.len() == k,
            member.len() == k,
            k <= n,
            forall|m: int| k <= m < n ==> joint_matrices@[m] == mats0[m],
            forall|m: int|
                0 <= m < k ==> member@[m] == in_subtree(parents, joint_idx as int, m),
            forall|m: int|
                0 <= m < k && member@[m] ==> worlds@[m] == chain_world(
                    parents,
                    mats0,
                    joint_idx as int,
                    *parent,
                    m,
                ),
            forall|m: int|
                0 <= m < k ==> joint_matrices@[m] == (if member@[m] {
                    mat4_transpose_spec(
                        mat4_mul_spec(
                            chain_world(parents, mats0, joint_idx as int, *parent, m),
                            inverse_bind_matrices@[m],
                        ),
                    )
                } else {
                    mats0[m]
                }),
        decreases n - k,
    {
        let is_mem: bool = if k == joint_idx {
            true
        } else if k > joint_idx {
            let p = rig.joint_parents[k];
            member[p]
        } else {
            false
        };
        if is_mem {
            let local = joint_matrices[k];
            let pw: Mat4 = if k == joint_idx {
                *parent
            } else {
                let p = rig.joint_parents[k];
                worlds[p]
            };
            let w = mat4_mul(&pw, &local);
            proof {
                assert(w == chain_world(parents, mats0, joint_idx as int, *parent, k as int));
            }
            let posed = mat4_mul(&w, &inverse_bind_matrices[k]);
            joint_matrices[k] = mat4_transpose(&posed);
            worlds.push(w);
            member.push(true);
        } else {
            worlds.push(mat4_identity());
            member.push(false);
        }
        k = k + 1;
    }
}

/// Sample the animation at `time` and compose the full pose: one skinning
/// matrix per joint, in canonical joint order, transposed for the GPU
/// consumer.  Joints beyond the animation's rows keep their bind-pose local
/// matrix as input to composition.
pub fn sample_bear(mesh: &SkeletalMesh, anim: &SkeletalAnimation, time: Fx) -> (r: Vec<Mat4>)
    requires
        skeletal_mesh_wf(*mesh),
        anim.joints.len() <= mesh.rig.joint_count,
    ensures
        r.len() == mesh.rig.joint_count,
        forall|j: int|
            0 <= j < mesh.rig.joint_count ==> r@[j] == sample_bear_spec(*mesh, *anim, time, j),
{
    let n = mesh.rig.joint_count;
    let mut joint_matrices: Vec<Mat4> = Vec::new();
    let mut joint: usize = 0;
    while joint < n
        invariant
            n == mesh.rig.joint_count,
            skeletal_mesh_wf(*mesh),
            joint <= n,
            joint_matrices.len() == joint,
            forall|m: int|
                0 <= m < joint ==> joint_matrices@[m] == mesh.joint_local_transforms@[m],
        decreases n - joint,
    {
        joint_matrices.push(mesh.joint_local_transforms[joint]);
        joint = joint + 1;
    }

    let time_step = fx_div(fx_one(), anim.sample_rate);
    let mut joint_idx: usize = 0;
    while joint_idx < anim.joints.len()
        invariant
            n == mesh.rig.joint_count,
            skeletal_mesh_wf(*mesh),
            anim.joints.len() <= n,
            joint_matrices.len() == n,
            time_step == time_step_spec(anim.sample_rate),
            joint_idx <= anim.joints.len(),
            forall|m: int|
                0 <= m < joint_idx ==> joint_matrices@[m] == sampled_locals_spec(
                    *mesh,
                    *anim,
                    time,
                )[m],
            forall|m: int|
                joint_idx <= m < n ==> joint_matrices@[m] == mesh.joint_local_transforms@[m],
        decreases anim.joints.len() - joint_idx,
    {
        proof {
            reveal(sample_channel_spec);
        }
        let frames = &anim.joints[joint_idx];
        let index_left = fx_floor_index(fx_div(time, time_step));

        let time_left = fx_mul(time_step, fx_from_usize(index_left));
        let time_right = fx_mul(time_step, fx_from_usize_succ(index_left));

        // case: no left keyframe: identity
        // case: no right keyframe: left keyframe
        let identity = TRS::default();
        let frame_left = if index_left < frames.len() {
            frames[index_left]
        } else {
            identity
        };
        let frame_right = if frames.len() > 0 && index_left < frames.len() - 1 {
            frames[index_left + 1]
        } else {
            frame_left
        };

        let alpha = fx_inverse_lerp(time_left, time_right, time);
        let translation = fx3_lerp(&frame_left.translation, &frame_right.translation, alpha);
        let rotation = quat_slerp(&frame_left.rotation, &frame_right.rotation, alpha);
        let scale = fx3_lerp(&frame_left.scale, &frame_right.scale, alpha);

        let transform = mat4_trs(&translation, &rotation, &scale);
        joint_matrices[joint_idx] = transform;
        joint_idx = joint_idx + 1;
    }

    proof {
        assert(joint_matrices@ =~= sampled_locals_spec(*mesh, *anim, time));
    }
    let ghost locals = joint_matrices@;
    let ident = mat4_identity();
    if n > 0 {
        pose_hierarchy(&mesh.rig, &mut joint_matrices, &mesh.inverse_bind_matrices, 0, &ident);
        proof {
            assert forall|j: int| 0 <= j < n implies in_subtree(
                mesh.rig.joint_parents@,
                0,
                j,
            ) by {
                lemma_all_in_root_subtree(mesh.rig.joint_parents@, j);
            }
        }
    }
    joint_matrices
}

} // verus!
