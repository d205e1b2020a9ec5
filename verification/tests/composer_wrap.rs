//! The composer: monotonic time accumulation, looping wraparound and the
//! non-looping clamp.

use std::collections::HashMap;

use skelanim::anim::composer::SkeletalComposer;
use skelanim::anim::layer::{SkeletalLayer, SkeletalLayerSpec};
use skelanim::anim::skeletal::{SkeletalAnimation, TRS};
use skelanim::fx::{fx_from_int, fx_rem, Fx, FX_ONE};
use skelanim::linear::{fx3_new, fx3_one, fx3_zero, quat_identity};
use skelanim::matrix::mat4_identity;
use skelanim::model::{Joint, Mesh, Rig, RigRemapTable, SkeletalMesh, VertexAttribs};

fn one_joint_mesh() -> SkeletalMesh {
    let rig = Rig {
        joint_transforms: vec![Joint {
            index: 0,
            parent_index: 0,
            translation: fx3_zero(),
            rotation: quat_identity(),
            scale: fx3_one(),
        }],
        joint_count: 1,
        joint_names: vec!["root".to_owned()],
        joint_children: vec![vec![]],
        joint_parents: vec![0],
        remap_table: RigRemapTable { joints: HashMap::new() },
    };
    SkeletalMesh {
        mesh: Mesh {
            attribs: VertexAttribs {
                position: vec![],
                normal: vec![],
                tangent: vec![],
                binormal: vec![],
                color: vec![],
                uv0: vec![],
                uv1: vec![],
                joint_indices: vec![],
                joint_weights: vec![],
            },
            indices: vec![],
        },
        rig,
        joint_transforms: vec![TRS {
            translation: fx3_zero(),
            rotation: quat_identity(),
            scale: fx3_one(),
        }],
        joint_local_transforms: vec![mat4_identity()],
        inverse_bind_matrices: vec![mat4_identity()],
    }
}

/// 75 dense frames at 30 Hz; frames 15 and 16 (around 0.5 s) carry a
/// translation of 7, everything else the identity.
fn step_animation() -> SkeletalAnimation {
    let mut frames = Vec::new();
    for f in 0..75 {
        let x = if f == 15 || f == 16 { fx_from_int(7) } else { Fx { bits: 0 } };
        frames.push(TRS {
            translation: fx3_new(x, Fx { bits: 0 }, Fx { bits: 0 }),
            rotation: quat_identity(),
            scale: fx3_one(),
        });
    }
    SkeletalAnimation {
        name: "step".to_owned(),
        sample_rate: Fx { bits: 30 * FX_ONE },
        num_frames: 75,
        min_time: Fx { bits: 0 },
        max_time: fx_from_int(2),
        joints: vec![frames],
    }
}

#[test]
fn looping_wraparound_samples_half_a_second() {
    // max_time 2.0, accumulated time 2.5: the sampled time must be 0.5
    assert_eq!(fx_rem(Fx { bits: 163840 }, Fx { bits: 131072 }).bits, 32768);

    let mesh = one_joint_mesh();
    let composer = SkeletalComposer::new(
        Fx { bits: FX_ONE },
        vec![SkeletalLayer {
            config: SkeletalLayerSpec { loopanim: true, playback_speed: Fx { bits: FX_ONE } },
            anim: step_animation(),
        }],
    );
    let mut composer = composer;
    composer.update(Fx { bits: 163840 });
    assert_eq!(composer.time.bits, 163840);
    let out = composer.sample(&mesh);
    // wrapped to 0.5 s: frames 15/16 hold translation 7
    assert_eq!(out[0].m30.bits, 7 * FX_ONE);
}

#[test]
fn non_looping_layer_clamps_to_max_time() {
    let mesh = one_joint_mesh();
    let mut composer = SkeletalComposer::new(
        Fx { bits: FX_ONE },
        vec![SkeletalLayer {
            config: SkeletalLayerSpec { loopanim: false, playback_speed: Fx { bits: FX_ONE } },
            anim: step_animation(),
        }],
    );
    composer.update(Fx { bits: 163840 });
    let out = composer.sample(&mesh);
    // clamped to 2.0 s: frame 60 holds the identity, not the step
    assert_eq!(out[0].m30.bits, 0);
}

#[test]
fn update_accumulates_monotonically() {
    let mut composer = SkeletalComposer::new(Fx { bits: FX_ONE }, vec![]);
    assert_eq!(composer.time.bits, 0);
    composer.update(Fx { bits: 100 });
    composer.update(Fx { bits: 23 });
    assert_eq!(composer.time.bits, 123);
    assert_eq!(composer.global_playback_speed.bits, FX_ONE);
}
