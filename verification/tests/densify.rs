//! Densification: presampled round trip and the bracket policy on the
//! uniform grid.

use std::collections::HashMap;

use skelanim::anim::skeletal::{SkeletalAnimation, TRS};
use skelanim::errors::ImportError;
use skelanim::fx::{fx_from_int, Fx, FX_ONE};
use skelanim::gltf::skeletal::{make_dense, make_dense_presampled, SparseChannel};
use skelanim::linear::{fx3_new, fx3_one, fx3_zero, quat_identity, Fx3};
use skelanim::model::{Joint, Rig, RigRemapTable};

fn identity_trs() -> TRS {
    TRS { translation: fx3_zero(), rotation: quat_identity(), scale: fx3_one() }
}

fn one_joint_rig() -> Rig {
    Rig {
        joint_transforms: vec![Joint {
            index: 0,
            parent_index: 0,
            translation: fx3_zero(),
            rotation: quat_identity(),
            scale: fx3_one(),
        }],
        joint_count: 1,
        joint_names: vec!["root".to_owned()],
        joint_children: vec![vec![]],
        joint_parents: vec![0],
        remap_table: RigRemapTable { joints: HashMap::new() },
    }
}

fn empty_channel() -> SparseChannel {
    SparseChannel {
        translations: vec![],
        translation_times: vec![],
        translation_time_min: Fx { bits: 0 },
        translation_time_max: Fx { bits: 0 },
        rotations: vec![],
        rotation_times: vec![],
        rotation_time_min: Fx { bits: 0 },
        rotation_time_max: Fx { bits: 0 },
        scales: vec![],
        scale_times: vec![],
        scale_time_min: Fx { bits: 0 },
        scale_time_max: Fx { bits: 0 },
    }
}

fn blank_animation(num_frames: usize, joint_count: usize) -> SkeletalAnimation {
    SkeletalAnimation {
        name: "clip".to_owned(),
        sample_rate: Fx { bits: 30 * FX_ONE },
        num_frames,
        min_time: Fx { bits: 0 },
        max_time: fx_from_int(num_frames as i64),
        joints: vec![vec![identity_trs(); num_frames]; joint_count],
    }
}

#[test]
fn densify_round_trip_presampled() {
    // a channel already holding one keyframe per dense frame is copied
    // back verbatim
    let rig = one_joint_rig();
    let mut dense = blank_animation(2, 1);
    let t0 = fx3_new(Fx { bits: 1 }, Fx { bits: 2 }, Fx { bits: 3 });
    let t1 = fx3_new(Fx { bits: 4 }, Fx { bits: 5 }, Fx { bits: 6 });
    let mut chan = empty_channel();
    chan.translations = vec![t0, t1];
    chan.rotations = vec![quat_identity(), quat_identity()];
    chan.scales = vec![fx3_one(), fx3_one()];
    let mut channels = HashMap::new();
    channels.insert(0usize, chan);

    let r = make_dense_presampled(&mut dense, &rig, &channels);
    assert!(r.is_ok());
    assert_eq!(dense.joints[0][0].translation, t0);
    assert_eq!(dense.joints[0][1].translation, t1);
    assert_eq!(dense.joints[0][0].scale, fx3_one());
}

#[test]
fn presampled_count_mismatch_is_rejected() {
    let rig = one_joint_rig();
    let mut dense = blank_animation(2, 1);
    let mut chan = empty_channel();
    chan.translations = vec![fx3_zero()];
    chan.rotations = vec![quat_identity()];
    chan.scales = vec![fx3_one()];
    let mut channels = HashMap::new();
    channels.insert(0usize, chan);
    let r = make_dense_presampled(&mut dense, &rig, &channels);
    assert_eq!(r.unwrap_err(), ImportError::SamplerCountMismatch);
}

#[test]
fn dense_grid_uses_strict_brackets() {
    // keyframes exactly on a one-second grid, densified with a one-second
    // step: an exactly-hit keyframe is bracketed by its neighbors, so the
    // frame at time 1 is the midpoint of the values at times 0 and 2
    let rig = one_joint_rig();
    let mut dense = blank_animation(3, 1);
    let mut chan = empty_channel();
    chan.translation_times = vec![fx_from_int(0), fx_from_int(1), fx_from_int(2)];
    chan.translations = vec![
        fx3_new(Fx { bits: 0 }, Fx { bits: 0 }, Fx { bits: 0 }),
        fx3_new(fx_from_int(1), Fx { bits: 0 }, Fx { bits: 0 }),
        fx3_new(fx_from_int(2), Fx { bits: 0 }, Fx { bits: 0 }),
    ];
    let mut channels = HashMap::new();
    channels.insert(0usize, chan);

    make_dense(&mut dense, &rig, fx_from_int(1), &channels);
    // frame 0: no keyframe strictly before time 0: identity at factor 0
    assert_eq!(dense.joints[0][0].translation, fx3_zero());
    // frame 1: bracketed by the keyframes at 0 and 2, factor one half
    assert_eq!(dense.joints[0][1].translation.x.bits, FX_ONE);
    // frame 2: bracketed by the keyframe at 1 and nothing: holds left
    assert_eq!(dense.joints[0][2].translation.x.bits, FX_ONE);
}

#[test]
fn uncharted_joints_keep_identity_rows() {
    let mut rig = one_joint_rig();
    rig.joint_transforms.push(Joint {
        index: 1,
        parent_index: 0,
        translation: fx3_zero(),
        rotation: quat_identity(),
        scale: fx3_one(),
    });
    rig.joint_names.push("child".to_owned());
    rig.joint_children.push(vec![]);
    rig.joint_children[0].push(1);
    rig.joint_parents.push(0);
    rig.joint_count = 2;

    let mut dense = blank_animation(2, 2);
    let mut chan = empty_channel();
    chan.translation_times = vec![Fx { bits: 0 }];
    chan.translations = vec![fx3_new(fx_from_int(5), Fx { bits: 0 }, Fx { bits: 0 })];
    let mut channels = HashMap::new();
    channels.insert(1usize, chan);

    make_dense(&mut dense, &rig, fx_from_int(1), &channels);
    // joint 0 has no channel: untouched identity rows
    assert_eq!(dense.joints[0][0], identity_trs());
    assert_eq!(dense.joints[0][1], identity_trs());
    // joint 1 frame 1: the keyframe at 0 is strictly before, nothing after
    assert_eq!(dense.joints[1][1].translation.x, fx_from_int(5));
}
