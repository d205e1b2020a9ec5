//! Rig construction, sparse-channel extraction and densification.

use vstd::prelude::*;

verus! {

use std::collections::HashMap;

use crate::anim::skeletal::{SkeletalAnimation, TRS, time_step_spec, trs_identity_spec};
use crate::errors::ImportError;
use crate::fx::{Fx, FX_ONE, fx_div, fx_div_spec, fx_floor_index, fx_floor_index_spec,
    fx_from_usize, fx_from_int_spec, fx_inverse_lerp, fx_invlerpv, fx_max, fx_max_spec, fx_maxv,
    fx_min, fx_min_spec, fx_minv, fx_mul, fx_mulv, fx_one};
use crate::linear::{Fx2, Fx3, Fx4, Int4, Quat, fx3_lerp, fx3_lerp_spec, fx3_one, fx3_one_spec, fx3_scale,
    fx3_scale_spec, fx3_zero, fx3_zero_spec, lemma_slerp_in_unit_ball, quat_identity,
    quat_identity_spec, quat_in_unit_ball, quat_slerp, quat_slerp_spec};
use crate::matrix::{Mat4, mat4_identity, mat4_identity_spec, mat4_inverse, mat4_inverse_spec,
    mat4_mul, mat4_trs, mat4_trs_spec};
use crate::anim::skeletal::{chain_world, in_subtree, lemma_all_in_root_subtree};
use crate::gltf::{GltfComponentType, GltfFile, GltfNode, node_trs_spec, node_trs_wf,
    read_fx_at, read_fx_spec, trs_from_gltf_node};
use crate::model::{Joint, Rig, RigRemapTable, SkeletalMesh, joint_in_parents_children, rig_wf,
    skeletal_mesh_wf};

/// Per-joint sparse keyframe tracks as imported: one independent time axis
/// per property, plus each property's declared time bounds.  Transient:
/// densification consumes it and it is not persisted.
pub struct SparseChannel {
    pub translations: Vec<Fx3>,
    pub translation_times: Vec<Fx>,
    pub translation_time_min: Fx,
    pub translation_time_max: Fx,
    pub rotations: Vec<Quat>,
    pub rotation_times: Vec<Fx>,
    pub rotation_time_min: Fx,
    pub rotation_time_max: Fx,
    pub scales: Vec<Fx3>,
    pub scale_times: Vec<Fx>,
    pub scale_time_min: Fx,
    pub scale_time_max: Fx,
}

/// The mathematical content of a sparse channel: each property's keyframe
/// values, times and declared bounds.
pub struct SparseChannelView {
    pub translations: Seq<Fx3>,
    pub translation_times: Seq<Fx>,
    pub translation_time_min: Fx,
    pub translation_time_max: Fx,
    pub rotations: Seq<Quat>,
    pub rotation_times: Seq<Fx>,
    pub rotation_time_min: Fx,
    pub rotation_time_max: Fx,
    pub scales: Seq<Fx3>,
    pub scale_times: Seq<Fx>,
    pub scale_time_min: Fx,
    pub scale_time_max: Fx,
}

impl View for SparseChannel {
    type V = SparseChannelView;

    open spec fn view(&self) -> SparseChannelView {
        SparseChannelView {
            translations: self.translations@,
            translation_times: self.translation_times@,
            translation_time_min: self.translation_time_min,
            translation_time_max: self.translation_time_max,
            rotations: self.rotations@,
            rotation_times: self.rotation_times@,
            rotation_time_min: self.rotation_time_min,
            rotation_time_max: self.rotation_time_max,
            scales: self.scales@,
            scale_times: self.scale_times@,
            scale_time_min: self.scale_time_min,
            scale_time_max: self.scale_time_max,
        }
    }
}

/// Each property's keyframe values are paired one-to-one with its times.
pub open spec fn sparse_channel_wf(c: SparseChannelView) -> bool {
    &&& c.translations.len() == c.translation_times.len()
    &&& c.rotations.len() == c.rotation_times.len()
    &&& c.scales.len() == c.scale_times.len()
}

pub open spec fn lift_opt(o: Option<usize>) -> Option<int> {
    match o {
        Some(v) => Some(v as int),
        None => None,
    }
}

/// The first index at or after `i` whose time is strictly greater than
/// `time` (the sweep the keyframe search performs).
pub open spec fn scan_right_from(times: Seq<Fx>, time: Fx, i: int) -> Option<int>
    decreases times.len() - i,
{
    if i >= times.len() {
        None
    } else if times[i].bits > time.bits {
        Some(i)
    } else {
        scan_right_from(times, time, i + 1)
    }
}

/// The last index below `end` whose time is strictly less than `time`.
pub open spec fn scan_left_upto(times: Seq<Fx>, time: Fx, end: int) -> Option<int>
    decreases end,
{
    if end <= 0 {
        None
    } else if times[end - 1].bits < time.bits {
        Some(end - 1)
    } else {
        scan_left_upto(times, time, end - 1)
    }
}

/// The `right` bracket index: the first keyframe whose time is strictly
/// greater than the query.
pub open spec fn right_index_spec(times: Seq<Fx>, time: Fx) -> Option<int> {
    scan_right_from(times, time, 0)
}

/// The `left` bracket index: the last keyframe strictly before the query
/// that the sweep saw before stopping at `right`.  On a chronologically
/// ordered track this is the last keyframe strictly less than the query.
pub open spec fn left_index_spec(times: Seq<Fx>, time: Fx) -> Option<int> {
    match right_index_spec(times, time) {
        Some(rp) => scan_left_upto(times, time, rp),
        None => scan_left_upto(times, time, times.len() as int),
    }
}

/// Search the bracketing keyframe indices around `time`.
/// Expects `keyframe_times` to be in chronological order; the sweep runs
/// left to right and stops at the first keyframe past the query.
pub fn search_keyframe_indices(time: Fx, keyframe_times: &Vec<Fx>) -> (r: (
    Option<usize>,
    Option<usize>,
))
    ensures
        lift_opt(r.0) == left_index_spec(keyframe_times@, time),
        lift_opt(r.1) == right_index_spec(keyframe_times@, time),
        r.0 is Some ==> r.0.unwrap() < keyframe_times.len(),
        r.1 is Some ==> r.1.unwrap() < keyframe_times.len(),
{
    let mut left: Option<usize> = None;
    let mut right: Option<usize> = None;
    let mut i: usize = 0;
    while i < keyframe_times.len() && right.is_none()
        invariant
            i <= keyframe_times.len(),
            right is None ==> lift_opt(left) == scan_left_upto(keyframe_times@, time, i as int),
            right is None ==> scan_right_from(keyframe_times@, time, 0) == scan_right_from(
                keyframe_times@,
                time,
                i as int,
            ),
            right is Some ==> {
                &&& lift_opt(right) == scan_right_from(keyframe_times@, time, 0)
                &&& lift_opt(left) == scan_left_upto(
                    keyframe_times@,
                    time,
                    right.unwrap() as int,
                )
            },
            left is Some ==> left.unwrap() < keyframe_times.len(),
            right is Some ==> right.unwrap() < keyframe_times.len(),
        decreases keyframe_times.len() - i,
    {
        let t = keyframe_times[i];
        if t.bits < time.bits {
            left = Some(i);
        }
        if t.bits > time.bits {
            right = Some(i);
        }
        i = i + 1;
    }
    (left, right)
}

proof fn lemma_scan_right_chars(times: Seq<Fx>, time: Fx, i: int)
    requires
        0 <= i,
    ensures
        match scan_right_from(times, time, i) {
            Some(r) => i <= r < times.len() && times[r].bits > time.bits && forall|k: int|
                i <= k < r ==> (#[trigger] times[k]).bits <= time.bits,
            None => forall|k: int|
                i <= k < times.len() ==> (#[trigger] times[k]).bits <= time.bits,
        },
    decreases times.len() - i,
{
    if i < times.len() && !(times[i].bits > time.bits) {
        lemma_scan_right_chars(times, time, i + 1);
    }
}

proof fn lemma_scan_left_chars(times: Seq<Fx>, time: Fx, end: int)
    requires
        end <= times.len(),
    ensures
        match scan_left_upto(times, time, end) {
            Some(l) => 0 <= l < end && times[l].bits < time.bits && forall|k: int|
                l < k < end ==> (#[trigger] times[k]).bits >= time.bits,
            None => forall|k: int| 0 <= k < end ==> (#[trigger] times[k]).bits >= time.bits,
        },
    decreases end,
{
    if end > 0 && !(times[end - 1].bits < time.bits) {
        lemma_scan_left_chars(times, time, end - 1);
    }
}

/// On a chronologically ordered keyframe track, the bracket search finds
/// exactly what the densifier's policy asks for: `left` is the last
/// keyframe with time strictly less than the query (or none), `right` the
/// first with time strictly greater (or none).
pub proof fn lemma_search_on_sorted_track(times: Seq<Fx>, time: Fx)
    requires
        forall|i: int, j: int|
            0 <= i < j < times.len() ==> (#[trigger] times[i]).bits <= (#[trigger] times[j]).bits,
    ensures
        match left_index_spec(times, time) {
            Some(l) => 0 <= l < times.len() && times[l].bits < time.bits && forall|k: int|
                l < k < times.len() ==> (#[trigger] times[k]).bits >= time.bits,
            None => forall|k: int|
                0 <= k < times.len() ==> (#[trigger] times[k]).bits >= time.bits,
        },
        match right_index_spec(times, time) {
            Some(r) => 0 <= r < times.len() && times[r].bits > time.bits && forall|k: int|
                0 <= k < r ==> (#[trigger] times[k]).bits <= time.bits,
            None => forall|k: int|
                0 <= k < times.len() ==> (#[trigger] times[k]).bits <= time.bits,
        },
{
    lemma_scan_right_chars(times, time, 0);
    match right_index_spec(times, time) {
        Some(rp) => {
            lemma_scan_left_chars(times, time, rp);
            match scan_left_upto(times, time, rp) {
                Some(l) => {
                    assert forall|k: int|
                        l < k < times.len() implies (#[trigger] times[k]).bits >= time.bits by {
                        if k >= rp {
                            assert(times[rp].bits <= times[k].bits || k == rp);
                        }
                    }
                },
                None => {
                    assert forall|k: int|
                        0 <= k < times.len() implies (#[trigger] times[k]).bits >= time.bits by {
                        if k >= rp {
                            assert(times[rp].bits <= times[k].bits || k == rp);
                        }
                    }
                },
            }
        },
        None => {
            lemma_scan_left_chars(times, time, times.len() as int);
        },
    }
}

/// The bracket a keyframe track yields around a query time, with the
/// boundary policy: no left keyframe reads as the property's identity at
/// time 0; no right keyframe holds the left value at the left time.
pub open spec fn select_spec<T>(time: Fx, times: Seq<Fx>, keyframes: Seq<T>, identity: T) -> (
    (Fx, T),
    (Fx, T),
) {
    let lp: (Fx, T) = match left_index_spec(times, time) {
        Some(i) => (times[i], keyframes[i]),
        None => (Fx { bits: 0 }, identity),
    };
    let rp: (Fx, T) = match right_index_spec(times, time) {
        Some(i) => (times[i], keyframes[i]),
        None => lp,
    };
    (lp, rp)
}

/// The identity fallback, in general: on a sorted track whose first
/// keyframe lies strictly after the query, the bracket resolves to the
/// identity at time 0 on the left and the first keyframe on the right.
pub proof fn lemma_select_before_first_keyframe<T>(
    time: Fx,
    times: Seq<Fx>,
    keyframes: Seq<T>,
    identity: T,
)
    requires
        times.len() == keyframes.len(),
        times.len() > 0,
        forall|i: int, j: int|
            0 <= i < j < times.len() ==> (#[trigger] times[i]).bits <= (#[trigger] times[j]).bits,
        times[0].bits > time.bits,
    ensures
        select_spec(time, times, keyframes, identity) == (
            (Fx { bits: 0 }, identity),
            (times[0], keyframes[0]),
        ),
{
    lemma_search_on_sorted_track(times, time);
    match left_index_spec(times, time) {
        Some(l) => {
            assert(times[0].bits <= times[l].bits || l == 0);
            assert(false);
        },
        None => {},
    }
    match right_index_spec(times, time) {
        Some(r) => {
            if r > 0 {
                assert(times[0].bits <= time.bits);
                assert(false);
            }
        },
        None => {
            assert(times[0].bits <= time.bits);
            assert(false);
        },
    }
}

/// The hold-last fallback, in general: on a sorted track whose last
/// keyframe lies strictly before the query, both bracket slots resolve to
/// the last keyframe, with the same value and the same time.
pub proof fn lemma_select_past_last_keyframe<T>(
    time: Fx,
    times: Seq<Fx>,
    keyframes: Seq<T>,
    identity: T,
)
    requires
        times.len() == keyframes.len(),
        times.len() > 0,
        forall|i: int, j: int|
            0 <= i < j < times.len() ==> (#[trigger] times[i]).bits <= (#[trigger] times[j]).bits,
        times[times.len() - 1].bits < time.bits,
    ensures
        select_spec(time, times, keyframes, identity) == (
            (times[times.len() - 1], keyframes[times.len() - 1]),
            (times[times.len() - 1], keyframes[times.len() - 1]),
        ),
{
    lemma_search_on_sorted_track(times, time);
    let last = times.len() - 1;
    match right_index_spec(times, time) {
        Some(r) => {
            assert(times[r].bits <= times[last].bits || r == last);
            assert(false);
        },
        None => {},
    }
    match left_index_spec(times, time) {
        Some(l) => {
            if l < last {
                assert(times[last].bits >= time.bits);
                assert(false);
            }
        },
        None => {
            assert(times[last].bits >= time.bits);
            assert(false);
        },
    }
}

/// case: no left keyframe: identity
/// case: no right keyframe: left keyframe
/// returns ((time, left), (time, right))
pub fn select_keyframes<'a, T>(
    time: Fx,
    keyframe_times: &Vec<Fx>,
    keyframes: &'a Vec<T>,
    identity: &'a T,
) -> (r: ((Fx, &'a T), (Fx, &'a T)))
    requires
        keyframe_times.len() == keyframes.len(),
    ensures
        ({
            let sel = select_spec(time, keyframe_times@, keyframes@, *identity);
            &&& (r.0).0 == (sel.0).0
            &&& *((r.0).1) == (sel.0).1
            &&& (r.1).0 == (sel.1).0
            &&& *((r.1).1) == (sel.1).1
        }),
{
    let (l, r) = search_keyframe_indices(time, keyframe_times);
    let mut left_time = Fx { bits: 0 };
    let mut right_time = Fx { bits: 0 };
    let left: &T = match l {
        Some(idx) => {
            left_time = keyframe_times[idx];
            &keyframes[idx]
        },
        None => {
            left_time = Fx { bits: 0 };
            identity
        },
    };
    let right: &T = match r {
        Some(idx) => {
            right_time = keyframe_times[idx];
            &keyframes[idx]
        },
        None => {
            right_time = left_time;
            left
        },
    };
    ((left_time, left), (right_time, right))
}

/// The TRS densification stores for a channel at one grid time: bracket
/// each property independently, take the normalized position of the time
/// in its bracket (0 in a degenerate bracket, holding the left value), and
/// interpolate (rotation along the shortest arc).
#[verifier::opaque]
pub open spec fn densify_at_spec(chan: SparseChannelView, t: Fx) -> TRS {
    let pt = select_spec(t, chan.translation_times, chan.translations, fx3_zero_spec());
    let pr = select_spec(t, chan.rotation_times, chan.rotations, quat_identity_spec());
    let ps = select_spec(t, chan.scale_times, chan.scales, fx3_one_spec());
    let alpha_t = fx_invlerpv((pt.0).0, (pt.1).0, t);
    let alpha_r = fx_invlerpv((pr.0).0, (pr.1).0, t);
    let alpha_s = fx_invlerpv((ps.0).0, (ps.1).0, t);
    TRS {
        translation: fx3_lerp_spec((pt.0).1, (pt.1).1, alpha_t),
        rotation: quat_slerp_spec((pr.0).1, (pr.1).1, alpha_r),
        scale: fx3_lerp_spec((ps.0).1, (ps.1).1, alpha_s),
    }
}

/// The uniform grid time of dense frame `f`: `f * time_step`.
pub open spec fn grid_time_spec(time_step: Fx, f: int) -> Fx {
    fx_mulv(time_step, Fx { bits: fx_from_int_spec(f) as i64 })
}

/// The fully dense row densification owes a charted joint.
pub open spec fn dense_row_spec(chan: SparseChannelView, time_step: Fx, num_frames: int) -> Seq<TRS> {
    Seq::new(num_frames as nat, |f: int| densify_at_spec(chan, grid_time_spec(time_step, f)))
}

/// Fill the dense animation from the sparse channels: for every joint that
/// has a channel, every frame of its row becomes the channel's
/// interpolated TRS at that frame's grid time.  Joints without a channel
/// keep their rows (identity TRS) untouched.
pub fn make_dense(
    dense: &mut SkeletalAnimation,
    rig: &Rig,
    time_step: Fx,
    sparse_channels: &HashMap<usize, SparseChannel>,
)
    requires
        old(dense).joints.len() == rig.joint_count,
        forall|j: usize|
            sparse_channels@.contains_key(j) ==> sparse_channel_wf(
                (#[trigger] sparse_channels@[j])@,
            ),
    ensures
        final(dense).name == old(dense).name,
        final(dense).sample_rate == old(dense).sample_rate,
        final(dense).num_frames == old(dense).num_frames,
        final(dense).min_time == old(dense).min_time,
        final(dense).max_time == old(dense).max_time,
        final(dense).joints.len() == old(dense).joints.len(),
        forall|j: int|
            0 <= j < rig.joint_count ==> (#[trigger] final(dense).joints@[j])@ == (
            if sparse_channels@.contains_key(j as usize) {
                dense_row_spec(
                    sparse_channels@[j as usize]@,
                    time_step,
                    old(dense).num_frames as int,
                )
            } else {
                old(dense).joints@[j]@
            }),
{
    let num_frames = dense.num_frames;
    let mut joint_idx: usize = 0;
    while joint_idx < rig.joint_count
        invariant
            dense.joints.len() == old(dense).joints.len(),
            old(dense).joints.len() == rig.joint_count,
            num_frames == dense.num_frames,
            dense.name == old(dense).name,
            dense.sample_rate == old(dense).sample_rate,
            dense.num_frames == old(dense).num_frames,
            dense.min_time == old(dense).min_time,
            dense.max_time == old(dense).max_time,
            joint_idx <= rig.joint_count,
            forall|j: usize|
                sparse_channels@.contains_key(j) ==> sparse_channel_wf(
                    (#[trigger] sparse_channels@[j])@,
                ),
            forall|j: int|
                0 <= j < joint_idx ==> (#[trigger] dense.joints@[j])@ == (
                if sparse_channels@.contains_key(j as usize) {
                    dense_row_spec(
                        sparse_channels@[j as usize]@,
                        time_step,
                        old(dense).num_frames as int,
                    )
                } else {
                    old(dense).joints@[j]@
                }),
            forall|j: int|
                joint_idx <= j < rig.joint_count ==> (#[trigger] dense.joints@[j])
                    == old(dense).joints@[j],
        decreases rig.joint_count - joint_idx,
    {
        match sparse_channels.get(&joint_idx) {
            None => {},
            Some(sparse) => {
                let mut row: Vec<TRS> = Vec::new();
                let mut frame: usize = 0;
                while frame < num_frames
                    invariant
                        frame <= num_frames,
                        row.len() == frame,
                        sparse_channel_wf((*sparse)@),
                        forall|f: int|
                            0 <= f < frame ==> row@[f] == densify_at_spec(
                                (*sparse)@,
                                grid_time_spec(time_step, f),
                            ),
                    decreases num_frames - frame,
                {
                    let time = fx_mul(time_step, fx_from_usize(frame));

                    let identity_translation = fx3_zero();
                    let identity_rotation = quat_identity();
                    let identity_scale = fx3_one();

                    let pair_translation = select_keyframes::<Fx3>(
                        time,
                        &sparse.translation_times,
                        &sparse.translations,
                        &identity_translation,
                    );
                    let pair_rotation = select_keyframes::<Quat>(
                        time,
                        &sparse.rotation_times,
                        &sparse.rotations,
                        &identity_rotation,
                    );
                    let pair_scale = select_keyframes::<Fx3>(
                        time,
                        &sparse.scale_times,
                        &sparse.scales,
                        &identity_scale,
                    );

                    let alpha_translation = fx_inverse_lerp(
                        (pair_translation.0).0,
                        (pair_translation.1).0,
                        time,
                    );
                    let alpha_rotation = fx_inverse_lerp(
                        (pair_rotation.0).0,
                        (pair_rotation.1).0,
                        time,
                    );
                    let alpha_scale = fx_inverse_lerp((pair_scale.0).0, (pair_scale.1).0, time);

                    let translation = fx3_lerp(
                        (pair_translation.0).1,
                        (pair_translation.1).1,
                        alpha_translation,
                    );
                    let rotation = quat_slerp(
                        (pair_rotation.0).1,
                        (pair_rotation.1).1,
                        alpha_rotation,
                    );
                    let scale = fx3_lerp((pair_scale.0).1, (pair_scale.1).1, alpha_scale);

                    proof {
                        reveal(densify_at_spec);
                    }
                    row.push(TRS { translation, rotation, scale });
                    frame = frame + 1;
                }
                proof {
                    assert(row@ =~= dense_row_spec((*sparse)@, time_step, num_frames as int));
                }
                dense.joints[joint_idx] = row;
            },
        }
        joint_idx = joint_idx + 1;
    }
}

/// Densified rotations stay in the unit ball: where every rotation
/// keyframe of a channel has components of magnitude at most one, so does
/// the rotation of every frame of the dense row the channel produces.
pub proof fn lemma_dense_rotations_in_unit_ball(
    chan: SparseChannelView,
    time_step: Fx,
    num_frames: int,
)
    requires
        sparse_channel_wf(chan),
        forall|k: int|
            0 <= k < chan.rotations.len() ==> quat_in_unit_ball(#[trigger] chan.rotations[k]),
    ensures
        forall|f: int|
            0 <= f < num_frames ==> quat_in_unit_ball(
                (#[trigger] dense_row_spec(chan, time_step, num_frames)[f]).rotation,
            ),
{
    assert forall|f: int| 0 <= f < num_frames implies quat_in_unit_ball(
        (#[trigger] dense_row_spec(chan, time_step, num_frames)[f]).rotation,
    ) by {
        reveal(densify_at_spec);
        let t = grid_time_spec(time_step, f);
        let pr = select_spec(t, chan.rotation_times, chan.rotations, quat_identity_spec());
        lemma_scan_right_chars(chan.rotation_times, t, 0);
        match right_index_spec(chan.rotation_times, t) {
            Some(rp) => {
                lemma_scan_left_chars(chan.rotation_times, t, rp);
            },
            None => {
                lemma_scan_left_chars(chan.rotation_times, t, chan.rotation_times.len() as int);
            },
        }
        let alpha = fx_invlerpv((pr.0).0, (pr.1).0, t);
        lemma_slerp_in_unit_ball((pr.0).1, (pr.1).1, alpha);
    }
}

/// Whether a channel is already densely sampled: all three properties
/// carry exactly one keyframe per dense frame.
pub open spec fn presampled_wf(c: SparseChannelView, num_frames: int) -> bool {
    &&& c.translations.len() == num_frames
    &&& c.rotations.len() == num_frames
    &&& c.scales.len() == num_frames
}

/// The row a presampled channel copies over verbatim.
pub open spec fn presampled_row_spec(c: SparseChannelView, num_frames: int) -> Seq<TRS> {
    Seq::new(
        num_frames as nat,
        |f: int|
            TRS { translation: c.translations[f], rotation: c.rotations[f], scale: c.scales[f] },
    )
}

/// Copy channels that are already sampled exactly on the dense grid: every
/// frame of a charted joint's row reproduces the channel's stored values
/// verbatim.  A channel whose property counts disagree with the frame
/// count is rejected and the animation is left untouched.
pub fn make_dense_presampled(
    dense: &mut SkeletalAnimation,
    rig: &Rig,
    sparse_channels: &HashMap<usize, SparseChannel>,
) -> (r: Result<(), ImportError>)
    requires
        old(dense).joints.len() == rig.joint_count,
    ensures
        r is Ok <==> (forall|j: usize|
            #![trigger sparse_channels@[j]]
            sparse_channels@.contains_key(j) && j < rig.joint_count ==> presampled_wf(
                sparse_channels@[j]@,
                old(dense).num_frames as int,
            )),
        r is Err ==> *final(dense) == *old(dense) && r.unwrap_err()
            == ImportError::SamplerCountMismatch,
        r is Ok ==> {
            &&& final(dense).name == old(dense).name
            &&& final(dense).sample_rate == old(dense).sample_rate
            &&& final(dense).num_frames == old(dense).num_frames
            &&& final(dense).min_time == old(dense).min_time
            &&& final(dense).max_time == old(dense).max_time
            &&& final(dense).joints.len() == old(dense).joints.len()
            &&& forall|j: int|
                0 <= j < rig.joint_count ==> (#[trigger] final(dense).joints@[j])@ == (
                if sparse_channels@.contains_key(j as usize) {
                    presampled_row_spec(
                        sparse_channels@[j as usize]@,
                        old(dense).num_frames as int,
                    )
                } else {
                    old(dense).joints@[j]@
                })
        },
{
    let num_frames = dense.num_frames;

    let mut joint_idx: usize = 0;
    while joint_idx < rig.joint_count
        invariant
            *dense == *old(dense),
            old(dense).joints.len() == rig.joint_count,
            num_frames == dense.num_frames,
            joint_idx <= rig.joint_count,
            forall|j: usize|
                #![trigger sparse_channels@[j]]
                sparse_channels@.contains_key(j) && j < joint_idx ==> presampled_wf(
                    sparse_channels@[j]@,
                    num_frames as int,
                ),
        decreases rig.joint_count - joint_idx,
    {
        match sparse_channels.get(&joint_idx) {
            None => {},
            Some(sparse) => {
                let correct_sample = sparse.translations.len() == sparse.rotations.len()
                    && sparse.translations.len() == sparse.scales.len();
                if !correct_sample || sparse.translations.len() != num_frames {
                    return Err(ImportError::SamplerCountMismatch);
                }
            },
        }
        joint_idx = joint_idx + 1;
    }

    let mut joint_idx: usize = 0;
    while joint_idx < rig.joint_count
        invariant
            dense.joints.len() == rig.joint_count,
            old(dense).joints.len() == rig.joint_count,
            num_frames == dense.num_frames,
            dense.name == old(dense).name,
            dense.sample_rate == old(dense).sample_rate,
            dense.num_frames == old(dense).num_frames,
            dense.min_time == old(dense).min_time,
            dense.max_time == old(dense).max_time,
            joint_idx <= rig.joint_count,
            forall|j: usize|
                #![trigger sparse_channels@[j]]
                sparse_channels@.contains_key(j) && j < rig.joint_count ==> presampled_wf(
                    sparse_channels@[j]@,
                    num_frames as int,
                ),
            forall|j: int|
                0 <= j < joint_idx ==> (#[trigger] dense.joints@[j])@ == (
                if sparse_channels@.contains_key(j as usize) {
                    presampled_row_spec(sparse_channels@[j as usize]@, num_frames as int)
                } else {
                    old(dense).joints@[j]@
                }),
            forall|j: int|
                joint_idx <= j < rig.joint_count ==> (#[trigger] dense.joints@[j])
                    == old(dense).joints@[j],
        decreases rig.joint_count - joint_idx,
    {
        match sparse_channels.get(&joint_idx) {
            None => {},
            Some(sparse) => {
                let mut row: Vec<TRS> = Vec::new();
                let mut frame: usize = 0;
                while frame < num_frames
                    invariant
                        frame <= num_frames,
                        row.len() == frame,
                        presampled_wf((*sparse)@, num_frames as int),
                        forall|f: int|
                            0 <= f < frame ==> row@[f] == (TRS {
                                translation: sparse@.translations[f],
                                rotation: sparse@.rotations[f],
                                scale: sparse@.scales[f],
                            }),
                    decreases num_frames - frame,
                {
                    row.push(
                        TRS {
                            translation: sparse.translations[frame],
                            rotation: sparse.rotations[frame],
                            scale: sparse.scales[frame],
                        },
                    );
                    frame = frame + 1;
                }
                proof {
                    assert(row@ =~= presampled_row_spec((*sparse)@, num_frames as int));
                }
                dense.joints[joint_idx] = row;
            },
        }
        joint_idx = joint_idx + 1;
    }
    Ok(())
}

/// Whether the first scene names a usable first root node.
pub open spec fn scene_root_ok(file: GltfFile) -> bool {
    &&& file.scenes.len() > 0
    &&& file.scenes@[0].root_nodes is Some
    &&& file.scenes@[0].root_nodes.unwrap().len() > 0
    &&& file.scenes@[0].root_nodes.unwrap()[0] < file.nodes.len()
}

/// The skeleton root node: the first root node of the first scene.
pub open spec fn rig_root_node_spec(file: GltfFile) -> GltfNode {
    file.nodes@[file.scenes@[0].root_nodes.unwrap()[0] as int]
}

/// The uniform scale the skeleton root carries (1 where it declares none),
/// or why it cannot be read: a malformed scene graph, a scale of the wrong
/// arity, or a non-uniform scale.
pub open spec fn rig_scale_spec(file: GltfFile) -> Result<Fx, ImportError> {
    if !scene_root_ok(file) {
        Err(ImportError::MalformedNodeGraph)
    } else {
        let node = rig_root_node_spec(file);
        if node.scale is Some {
            let components = node.scale.unwrap();
            if components.len() != 3 {
                Err(ImportError::MalformedNodeGraph)
            } else if components[0] != components[1] || components[0] != components[2] {
                Err(ImportError::NonUniformRigScale)
            } else {
                Ok(components[0])
            }
        } else {
            Ok(Fx { bits: FX_ONE })
        }
    }
}

/// Read the rig's uniform root scale.  Translation keyframes are
/// pre-multiplied by this factor before densification.
pub fn rig_scale_from_file(file: &GltfFile) -> (r: Result<Fx, ImportError>)
    ensures
        r == rig_scale_spec(*file),
{
    if file.scenes.len() == 0 {
        return Err(ImportError::MalformedNodeGraph);
    }
    let scene = &file.scenes[0];
    let root_nodes = match &scene.root_nodes {
        Some(rn) => rn,
        None => {
            return Err(ImportError::MalformedNodeGraph);
        },
    };
    if root_nodes.len() == 0 {
        return Err(ImportError::MalformedNodeGraph);
    }
    let root_index = root_nodes[0];
    if root_index >= file.nodes.len() {
        return Err(ImportError::MalformedNodeGraph);
    }
    let rig_node = &file.nodes[root_index];
    match &rig_node.scale {
        Some(components) => {
            if components.len() != 3 {
                return Err(ImportError::MalformedNodeGraph);
            }
            if components[0] != components[1] || components[0] != components[2] {
                return Err(ImportError::NonUniformRigScale);
            }
            Ok(components[0])
        },
        None => Ok(Fx { bits: FX_ONE }),
    }
}

/// The keyframe times an input accessor stores: one binary32 per frame.
pub open spec fn times_read_spec(buf: Seq<u8>, base: int, n: int) -> Seq<Fx> {
    Seq::new(n as nat, |k: int| read_fx_spec(buf, base + 4 * k))
}

/// Three-component keyframe values, packed as binary32 triples.
pub open spec fn vec3_read_spec(buf: Seq<u8>, base: int, n: int) -> Seq<Fx3> {
    Seq::new(
        n as nat,
        |k: int|
            Fx3 {
                x: read_fx_spec(buf, base + 12 * k),
                y: read_fx_spec(buf, base + 12 * k + 4),
                z: read_fx_spec(buf, base + 12 * k + 8),
            },
    )
}

/// Rotation keyframe values, packed as binary32 quadruples.
pub open spec fn quat_read_spec(buf: Seq<u8>, base: int, n: int) -> Seq<Quat> {
    Seq::new(
        n as nat,
        |k: int|
            Quat {
                x: read_fx_spec(buf, base + 16 * k),
                y: read_fx_spec(buf, base + 16 * k + 4),
                z: read_fx_spec(buf, base + 16 * k + 8),
                w: read_fx_spec(buf, base + 16 * k + 12),
            },
    )
}

/// Translation keyframes scaled by the rig's uniform root scale.
pub open spec fn scaled_vec3_spec(v: Seq<Fx3>, s: Fx) -> Seq<Fx3> {
    Seq::new(v.len(), |k: int| fx3_scale_spec(v[k], s))
}

/// A channel with no keyframes recorded yet.
pub open spec fn empty_channel_view() -> SparseChannelView {
    SparseChannelView {
        translations: Seq::empty(),
        translation_times: Seq::empty(),
        translation_time_min: Fx { bits: 0 },
        translation_time_max: Fx { bits: 0 },
        rotations: Seq::empty(),
        rotation_times: Seq::empty(),
        rotation_time_min: Fx { bits: 0 },
        rotation_time_max: Fx { bits: 0 },
        scales: Seq::empty(),
        scale_times: Seq::empty(),
        scale_time_min: Fx { bits: 0 },
        scale_time_max: Fx { bits: 0 },
    }
}

/// What processing one animation channel does to the per-joint channel
/// chart: validate the sampler and its accessors, read the keyframes from
/// the decoded buffers and append them to the target joint's property
/// track, recording the accessor's declared time bounds.  A channel whose
/// target path is none of translation/rotation/scale contributes nothing
/// but still charts its joint.
pub open spec fn channel_step(
    file: GltfFile,
    remap: Map<usize, usize>,
    rig_scale: Fx,
    m: Map<usize, SparseChannelView>,
    ci: int,
) -> Result<Map<usize, SparseChannelView>, ImportError> {
    let anim = file.animations.unwrap()[0];
    let ch = anim.channels[ci];
    if !remap.contains_key(ch.target.node) {
        Err(ImportError::MalformedNodeGraph)
    } else {
        let bone = remap[ch.target.node];
        let prev = if m.contains_key(bone) {
            m[bone]
        } else {
            empty_channel_view()
        };
        if ch.sampler >= anim.samplers.len() {
            Err(ImportError::AssetReadFailure)
        } else {
            let sampler = anim.samplers[ch.sampler as int];
            if sampler.input >= file.accessors.len() || sampler.output >= file.accessors.len() {
                Err(ImportError::AssetReadFailure)
            } else {
                let ia = file.accessors[sampler.input as int];
                let oa = file.accessors[sampler.output as int];
                if ia.count != oa.count {
                    Err(ImportError::SamplerCountMismatch)
                } else if ia.component_type != 5126 {
                    Err(ImportError::UnsupportedAccessorShape)
                } else if ia.min is None || ia.max is None {
                    Err(ImportError::MissingTimeBounds)
                } else if ia.accessor_type@ != "SCALAR"@ {
                    Err(ImportError::UnsupportedAccessorShape)
                } else if ia.count < 0 {
                    Err(ImportError::UnsupportedAccessorShape)
                } else if ia.buffer_view >= file.buffer_views.len() || oa.buffer_view
                    >= file.buffer_views.len() {
                    Err(ImportError::AssetReadFailure)
                } else {
                    let ibv = file.buffer_views[ia.buffer_view as int];
                    let obv = file.buffer_views[oa.buffer_view as int];
                    if ibv.buffer >= file.decoded_buffers.len() || obv.buffer
                        >= file.decoded_buffers.len() {
                        Err(ImportError::AssetReadFailure)
                    } else {
                        let ibuf = file.decoded_buffers[ibv.buffer as int]@;
                        let obuf = file.decoded_buffers[obv.buffer as int]@;
                        let n = ia.count as int;
                        if ibv.byte_offset + 4 * n > ibuf.len() {
                            Err(ImportError::AssetReadFailure)
                        } else {
                            let times = times_read_spec(ibuf, ibv.byte_offset as int, n);
                            let bounds_bad = n > 0 && (ia.min.unwrap().len() == 0
                                || ia.max.unwrap().len() == 0);
                            if ch.target.path@ == "translation"@ {
                                if obv.byte_offset + 12 * n > obuf.len() {
                                    Err(ImportError::AssetReadFailure)
                                } else if bounds_bad {
                                    Err(ImportError::MissingTimeBounds)
                                } else {
                                    Ok(
                                        m.insert(
                                            bone,
                                            SparseChannelView {
                                                translations: prev.translations + scaled_vec3_spec(
                                                    vec3_read_spec(
                                                        obuf,
                                                        obv.byte_offset as int,
                                                        n,
                                                    ),
                                                    rig_scale,
                                                ),
                                                translation_times: prev.translation_times + times,
                                                translation_time_min: if n > 0 {
                                                    ia.min.unwrap()[0]
                                                } else {
                                                    prev.translation_time_min
                                                },
                                                translation_time_max: if n > 0 {
                                                    ia.max.unwrap()[0]
                                                } else {
                                                    prev.translation_time_max
                                                },
                                                ..prev
                                            },
                                        ),
                                    )
                                }
                            } else if ch.target.path@ == "rotation"@ {
                                if obv.byte_offset + 16 * n > obuf.len() {
                                    Err(ImportError::AssetReadFailure)
                                } else if bounds_bad {
                                    Err(ImportError::MissingTimeBounds)
                                } else {
                                    Ok(
                                        m.insert(
                                            bone,
                                            SparseChannelView {
                                                rotations: prev.rotations + quat_read_spec(
                                                    obuf,
                                                    obv.byte_offset as int,
                                                    n,
                                                ),
                                                rotation_times: prev.rotation_times + times,
                                                rotation_time_min: if n > 0 {
                                                    ia.min.unwrap()[0]
                                                } else {
                                                    prev.rotation_time_min
                                                },
                                                rotation_time_max: if n > 0 {
                                                    ia.max.unwrap()[0]
                                                } else {
                                                    prev.rotation_time_max
                                                },
                                                ..prev
                                            },
                                        ),
                                    )
                                }
                            } else if ch.target.path@ == "scale"@ {
                                if obv.byte_offset + 12 * n > obuf.len() {
                                    Err(ImportError::AssetReadFailure)
                                } else if bounds_bad {
                                    Err(ImportError::MissingTimeBounds)
                                } else {
                                    Ok(
                                        m.insert(
                                            bone,
                                            SparseChannelView {
                                                scales: prev.scales + vec3_read_spec(
                                                    obuf,
                                                    obv.byte_offset as int,
                                                    n,
                                                ),
                                                scale_times: prev.scale_times + times,
                                                scale_time_min: if n > 0 {
                                                    ia.min.unwrap()[0]
                                                } else {
                                                    prev.scale_time_min
                                                },
                                                scale_time_max: if n > 0 {
                                                    ia.max.unwrap()[0]
                                                } else {
                                                    prev.scale_time_max
                                                },
                                                ..prev
                                            },
                                        ),
                                    )
                                }
                            } else {
                                Ok(m.insert(bone, prev))
                            }
                        }
                    }
                }
            }
        }
    }
}

/// The channel chart after processing the first `upto` channels of the
/// single animation clip, or the first error raised.
pub open spec fn extract_channels(
    file: GltfFile,
    remap: Map<usize, usize>,
    rig_scale: Fx,
    upto: int,
) -> Result<Map<usize, SparseChannelView>, ImportError>
    decreases upto,
{
    if upto <= 0 {
        Ok(Map::empty())
    } else {
        match extract_channels(file, remap, rig_scale, upto - 1) {
            Err(e) => Err(e),
            Ok(m) => channel_step(file, remap, rig_scale, m, upto - 1),
        }
    }
}

proof fn lemma_extract_err_persists(
    file: GltfFile,
    remap: Map<usize, usize>,
    rig_scale: Fx,
    i: int,
    n: int,
)
    requires
        0 <= i <= n,
        extract_channels(file, remap, rig_scale, i) is Err,
    ensures
        extract_channels(file, remap, rig_scale, n) == extract_channels(
            file,
            remap,
            rig_scale,
            i,
        ),
    decreases n - i,
{
    if i < n {
        lemma_extract_err_persists(file, remap, rig_scale, i + 1, n);
    }
}

/// The spec-level image of the channel chart.
pub open spec fn channels_view(m: Map<usize, SparseChannel>) -> Map<usize, SparseChannelView> {
    m.map_values(|c: SparseChannel| c@)
}

/// The least declared time bound of one channel, over its three
/// properties.
pub open spec fn channel_min_bound(c: SparseChannelView) -> Fx {
    fx_minv(fx_minv(c.translation_time_min, c.rotation_time_min), c.scale_time_min)
}

/// The greatest declared time bound of one channel, over its three
/// properties.
pub open spec fn channel_max_bound(c: SparseChannelView) -> Fx {
    fx_maxv(fx_maxv(c.translation_time_max, c.rotation_time_max), c.scale_time_max)
}

/// The animation's overall time bounds: the minimum and maximum of every
/// charted joint's per-property declared bounds, over the joint indices
/// below `j`; nothing where no joint below `j` is charted.
pub open spec fn bounds_fold(m: Map<usize, SparseChannelView>, j: int) -> Option<(Fx, Fx)>
    decreases j,
{
    if j <= 0 {
        None
    } else {
        let prev = bounds_fold(m, j - 1);
        if m.contains_key((j - 1) as usize) {
            let c = m[(j - 1) as usize];
            match prev {
                None => Some((channel_min_bound(c), channel_max_bound(c))),
                Some(b) => Some(
                    (
                        fx_minv(b.0, channel_min_bound(c)),
                        fx_maxv(b.1, channel_max_bound(c)),
                    ),
                ),
            }
        } else {
            prev
        }
    }
}

/// The folded bounds are exactly the least and the greatest declared
/// per-property time bound over the charted joints below `j`: each
/// declared bound lies between them, and each of the two is itself one of
/// the declared bounds.
pub proof fn lemma_bounds_fold_minmax(m: Map<usize, SparseChannelView>, j: int)
    ensures
        bounds_fold(m, j) is None <==> (forall|b: usize|
            (b as int) < j ==> !(#[trigger] m.contains_key(b))),
        bounds_fold(m, j) is Some ==> {
            let lo = bounds_fold(m, j).unwrap().0;
            let hi = bounds_fold(m, j).unwrap().1;
            &&& forall|b: usize|
                (b as int) < j && #[trigger] m.contains_key(b) ==> lo.bits
                    <= m[b].translation_time_min.bits && lo.bits <= m[b].rotation_time_min.bits
                    && lo.bits <= m[b].scale_time_min.bits && hi.bits
                    >= m[b].translation_time_max.bits && hi.bits >= m[b].rotation_time_max.bits
                    && hi.bits >= m[b].scale_time_max.bits
            &&& exists|b: usize|
                (b as int) < j && #[trigger] m.contains_key(b) && (lo
                    == m[b].translation_time_min || lo == m[b].rotation_time_min || lo
                    == m[b].scale_time_min)
            &&& exists|b: usize|
                (b as int) < j && #[trigger] m.contains_key(b) && (hi
                    == m[b].translation_time_max || hi == m[b].rotation_time_max || hi
                    == m[b].scale_time_max)
        },
    decreases j,
{
    if j > 0 {
        lemma_bounds_fold_minmax(m, j - 1);
    }
}

/// The default dense sample rate: 30 Hz, in fixed-point bits.
pub const DEFAULT_SAMPLE_RATE_BITS: i64 = 30 * 65536;

/// Import the single animation clip of a source file: extract each
/// channel's sparse keyframes (translations pre-multiplied by the rig's
/// uniform root scale), discover the overall time bounds, and densify onto
/// the uniform 30 Hz grid.  Joints without channels stay at the identity
/// pose across all frames.
pub fn load_animations(skeletal_mesh: &SkeletalMesh, file: &GltfFile) -> (r: Result<
    SkeletalAnimation,
    ImportError,
>)
    requires
        forall|s: usize|
            #[trigger] skeletal_mesh.rig.remap_table.joints@.contains_key(s)
                ==> skeletal_mesh.rig.remap_table.joints@[s] < skeletal_mesh.rig.joint_count,
    ensures
        (file.animations is None || file.animations.unwrap().len() == 0) ==> r == Err::<
            SkeletalAnimation,
            ImportError,
        >(ImportError::MissingAnimation),
        file.animations is Some && file.animations.unwrap().len() > 1 ==> r == Err::<
            SkeletalAnimation,
            ImportError,
        >(ImportError::UnsupportedMultiAnimation),
        (file.animations is Some && file.animations.unwrap().len() == 1) ==> {
            let remap = skeletal_mesh.rig.remap_table.joints@;
            match rig_scale_spec(*file) {
                Err(e) => r == Err::<SkeletalAnimation, ImportError>(e),
                Ok(rig_scale) => {
                    let nch = file.animations.unwrap()[0].channels.len() as int;
                    match extract_channels(*file, remap, rig_scale, nch) {
                        Err(e) => r == Err::<SkeletalAnimation, ImportError>(e),
                        Ok(chans) => {
                            &&& r is Ok
                            &&& ({
                                let a = r.unwrap();
                                let bounds = match bounds_fold(
                                    chans,
                                    skeletal_mesh.rig.joint_count as int,
                                ) {
                                    None => (Fx { bits: 655294464i64 }, Fx { bits: 0 }),
                                    Some(b) => b,
                                };
                                let step = time_step_spec(
                                    Fx { bits: DEFAULT_SAMPLE_RATE_BITS },
                                );
                                &&& a.name == file.animations.unwrap()[0].name
                                &&& a.sample_rate == Fx { bits: DEFAULT_SAMPLE_RATE_BITS }
                                &&& a.min_time == bounds.0
                                &&& a.max_time == bounds.1
                                &&& a.num_frames as int == fx_floor_index_spec(
                                    fx_div_spec(bounds.1.bits as int, step.bits as int),
                                )
                                &&& a.joints.len() == skeletal_mesh.rig.joint_count
                                &&& forall|j: int|
                                    0 <= j < skeletal_mesh.rig.joint_count ==> (#[trigger]
                                    a.joints@[j])@ == (if chans.contains_key(j as usize) {
                                        dense_row_spec(
                                            chans[j as usize],
                                            step,
                                            a.num_frames as int,
                                        )
                                    } else {
                                        Seq::new(
                                            a.num_frames as nat,
                                            |f: int| trs_identity_spec(),
                                        )
                                    })
                            })
                        },
                    }
                },
            }
        },
{
    let animations = match &file.animations {
        Some(a) => a,
        None => {
            return Err(ImportError::MissingAnimation);
        },
    };
    if animations.len() == 0 {
        return Err(ImportError::MissingAnimation);
    }
    if animations.len() > 1 {
        return Err(ImportError::UnsupportedMultiAnimation);
    }
    let anim = &animations[0];
    let anim_name = anim.name.clone();

    // load rig scale
    let rig_scale = match rig_scale_from_file(file) {
        Ok(s) => s,
        Err(e) => {
            return Err(e);
        },
    };

    let scalar_str: String = "SCALAR".to_owned();
    let translation_str: String = "translation".to_owned();
    let rotation_str: String = "rotation".to_owned();
    let scale_str: String = "scale".to_owned();

    let ghost remap = skeletal_mesh.rig.remap_table.joints@;
    let ghost nch = anim.channels.len() as int;

    // read samples
    let mut sparse_channels: HashMap<usize, SparseChannel> = HashMap::new();
    proof {
        assert(channels_view(sparse_channels@) =~= Map::<usize, SparseChannelView>::empty());
    }
    let mut ci: usize = 0;
    while ci < anim.channels.len()
        invariant
            ci <= anim.channels.len(),
            file.animations is Some,
            file.animations.unwrap().len() == 1,
            *anim == file.animations.unwrap()[0],
            nch == anim.channels.len() as int,
            remap == skeletal_mesh.rig.remap_table.joints@,
            forall|s: usize|
                #[trigger] remap.contains_key(s) ==> remap[s] < skeletal_mesh.rig.joint_count,
            rig_scale_spec(*file) == Ok::<Fx, ImportError>(rig_scale),
            scalar_str@ == "SCALAR"@,
            translation_str@ == "translation"@,
            rotation_str@ == "rotation"@,
            scale_str@ == "scale"@,
            extract_channels(*file, remap, rig_scale, ci as int) == Ok::<
                Map<usize, SparseChannelView>,
                ImportError,
            >(channels_view(sparse_channels@)),
            forall|b: usize|
                #[trigger] sparse_channels@.contains_key(b) ==> sparse_channel_wf(
                    sparse_channels@[b]@,
                ),
        decreases anim.channels.len() - ci,
    {
        let ghost cur_view = channels_view(sparse_channels@);
        let gltf_channel = &anim.channels[ci];

        // use remapped target bone index
        let bone_index: usize = match skeletal_mesh.rig.remap_table.joints.get(
            &gltf_channel.target.node,
        ) {
            Some(b) => *b,
            None => {
                proof {
                    lemma_extract_err_persists(*file, remap, rig_scale, ci as int + 1, nch);
                }
                return Err(ImportError::MalformedNodeGraph);
            },
        };

        let mut chan: SparseChannel = match sparse_channels.remove(&bone_index) {
            Some(c) => c,
            None => SparseChannel {
                translations: Vec::new(),
                translation_times: Vec::new(),
                translation_time_min: Fx { bits: 0 },
                translation_time_max: Fx { bits: 0 },
                rotations: Vec::new(),
                rotation_times: Vec::new(),
                rotation_time_min: Fx { bits: 0 },
                rotation_time_max: Fx { bits: 0 },
                scales: Vec::new(),
                scale_times: Vec::new(),
                scale_time_min: Fx { bits: 0 },
                scale_time_max: Fx { bits: 0 },
            },
        };
        let ghost prev = chan@;
        proof {
            assert(prev == (if cur_view.contains_key(bone_index) {
                cur_view[bone_index]
            } else {
                empty_channel_view()
            }));
        }

        if gltf_channel.sampler >= anim.samplers.len() {
            proof {
                lemma_extract_err_persists(*file, remap, rig_scale, ci as int + 1, nch);
            }
            return Err(ImportError::AssetReadFailure);
        }
        let sampler = &anim.samplers[gltf_channel.sampler];
        if sampler.input >= file.accessors.len() || sampler.output >= file.accessors.len() {
            proof {
                lemma_extract_err_persists(*file, remap, rig_scale, ci as int + 1, nch);
            }
            return Err(ImportError::AssetReadFailure);
        }
        let input_accessor = &file.accessors[sampler.input];
        let output_accessor = &file.accessors[sampler.output];

        if input_accessor.count != output_accessor.count {
            proof {
                lemma_extract_err_persists(*file, remap, rig_scale, ci as int + 1, nch);
            }
            return Err(ImportError::SamplerCountMismatch);
        }
        if input_accessor.component_type != GltfComponentType::Float.code() {
            proof {
                lemma_extract_err_persists(*file, remap, rig_scale, ci as int + 1, nch);
            }
            return Err(ImportError::UnsupportedAccessorShape);
        }
        let min_vec = match &input_accessor.min {
            Some(v) => v,
            None => {
                proof {
                    lemma_extract_err_persists(*file, remap, rig_scale, ci as int + 1, nch);
                }
                return Err(ImportError::MissingTimeBounds);
            },
        };
        let max_vec = match &input_accessor.max {
            Some(v) => v,
            None => {
                proof {
                    lemma_extract_err_persists(*file, remap, rig_scale, ci as int + 1, nch);
                }
                return Err(ImportError::MissingTimeBounds);
            },
        };
        if !(input_accessor.accessor_type == scalar_str) {
            proof {
                lemma_extract_err_persists(*file, remap, rig_scale, ci as int + 1, nch);
            }
            return Err(ImportError::UnsupportedAccessorShape);
        }
        if input_accessor.count < 0 {
            proof {
                lemma_extract_err_persists(*file, remap, rig_scale, ci as int + 1, nch);
            }
            return Err(ImportError::UnsupportedAccessorShape);
        }
        if input_accessor.buffer_view >= file.buffer_views.len() || output_accessor.buffer_view
            >= file.buffer_views.len() {
            proof {
                lemma_extract_err_persists(*file, remap, rig_scale, ci as int + 1, nch);
            }
            return Err(ImportError::AssetReadFailure);
        }
        let input_buffer_view = &file.buffer_views[input_accessor.buffer_view];
        let output_buffer_view = &file.buffer_views[output_accessor.buffer_view];
        if input_buffer_view.buffer >= file.decoded_buffers.len() || output_buffer_view.buffer
            >= file.decoded_buffers.len() {
            proof {
                lemma_extract_err_persists(*file, remap, rig_scale, ci as int + 1, nch);
            }
            return Err(ImportError::AssetReadFailure);
        }
        let input_buffer = &file.decoded_buffers[input_buffer_view.buffer];
        let output_buffer = &file.decoded_buffers[output_buffer_view.buffer];

        if (input_buffer_view.byte_offset as u128) + 4 * (input_accessor.count as u128) > (
        input_buffer.len() as u128) {
            proof {
                lemma_extract_err_persists(*file, remap, rig_scale, ci as int + 1, nch);
            }
            return Err(ImportError::AssetReadFailure);
        }
        let n: usize = input_accessor.count as usize;
        let in_base = input_buffer_view.byte_offset;
        let bounds_bad = n > 0 && (min_vec.len() == 0 || max_vec.len() == 0);
        let ghost times_s = times_read_spec(input_buffer@, in_base as int, n as int);

        if gltf_channel.target.path == translation_str {
            if (output_buffer_view.byte_offset as u128) + 12 * (input_accessor.count as u128) > (
            output_buffer.len() as u128) {
                proof {
                    lemma_extract_err_persists(*file, remap, rig_scale, ci as int + 1, nch);
                }
                return Err(ImportError::AssetReadFailure);
            }
            if bounds_bad {
                proof {
                    lemma_extract_err_persists(*file, remap, rig_scale, ci as int + 1, nch);
                }
                return Err(ImportError::MissingTimeBounds);
            }
            let out_base = output_buffer_view.byte_offset;
            let ghost vals_s = scaled_vec3_spec(
                vec3_read_spec(output_buffer@, out_base as int, n as int),
                rig_scale,
            );
            let mut f: usize = 0;
            while f < n
                invariant
                    f <= n,
                    in_base + 4 * n <= input_buffer.len(),
                    out_base + 12 * n <= output_buffer.len(),
                    times_s == times_read_spec(input_buffer@, in_base as int, n as int),
                    vals_s == scaled_vec3_spec(
                        vec3_read_spec(output_buffer@, out_base as int, n as int),
                        rig_scale,
                    ),
                    chan.translation_times@ == prev.translation_times + times_s.subrange(
                        0,
                        f as int,
                    ),
                    chan.translations@ == prev.translations + vals_s.subrange(0, f as int),
                    chan.rotations@ == prev.rotations,
                    chan.rotation_times@ == prev.rotation_times,
                    chan.scales@ == prev.scales,
                    chan.scale_times@ == prev.scale_times,
                    chan.translation_time_min == prev.translation_time_min,
                    chan.translation_time_max == prev.translation_time_max,
                    chan.rotation_time_min == prev.rotation_time_min,
                    chan.rotation_time_max == prev.rotation_time_max,
                    chan.scale_time_min == prev.scale_time_min,
                    chan.scale_time_max == prev.scale_time_max,
                decreases n - f,
            {
                let frame_time = read_fx_at(input_buffer, in_base + 4 * f);
                let x = read_fx_at(output_buffer, out_base + 12 * f);
                let y = read_fx_at(output_buffer, out_base + 12 * f + 4);
                let z = read_fx_at(output_buffer, out_base + 12 * f + 8);
                // note: scale translations by rig scale
                chan.translations.push(fx3_scale(&Fx3 { x, y, z }, rig_scale));
                chan.translation_times.push(frame_time);
                proof {
                    assert(times_s.subrange(0, f + 1) =~= times_s.subrange(0, f as int).push(
                        times_s[f as int],
                    ));
                    assert(vals_s.subrange(0, f + 1) =~= vals_s.subrange(0, f as int).push(
                        vals_s[f as int],
                    ));
                }
                f = f + 1;
            }
            if n > 0 {
                chan.translation_time_min = min_vec[0];
                chan.translation_time_max = max_vec[0];
            }
            proof {
                assert(times_s.subrange(0, n as int) =~= times_s);
                assert(vals_s.subrange(0, n as int) =~= vals_s);
            }
            sparse_channels.insert(bone_index, chan);
        } else if gltf_channel.target.path == rotation_str {
            if (output_buffer_view.byte_offset as u128) + 16 * (input_accessor.count as u128) > (
            output_buffer.len() as u128) {
                proof {
                    lemma_extract_err_persists(*file, remap, rig_scale, ci as int + 1, nch);
                }
                return Err(ImportError::AssetReadFailure);
            }
            if bounds_bad {
                proof {
                    lemma_extract_err_persists(*file, remap, rig_scale, ci as int + 1, nch);
                }
                return Err(ImportError::MissingTimeBounds);
            }
            let out_base = output_buffer_view.byte_offset;
            let ghost vals_s = quat_read_spec(output_buffer@, out_base as int, n as int);
            let mut f: usize = 0;
            while f < n
                invariant
                    f <= n,
                    in_base + 4 * n <= input_buffer.len(),
                    out_base + 16 * n <= output_buffer.len(),
                    times_s == times_read_spec(input_buffer@, in_base as int, n as int),
                    vals_s == quat_read_spec(output_buffer@, out_base as int, n as int),
                    chan.rotation_times@ == prev.rotation_times + times_s.subrange(0, f as int),
                    chan.rotations@ == prev.rotations + vals_s.subrange(0, f as int),
                    chan.translations@ == prev.translations,
                    chan.translation_times@ == prev.translation_times,
                    chan.scales@ == prev.scales,
                    chan.scale_times@ == prev.scale_times,
                    chan.translation_time_min == prev.translation_time_min,
                    chan.translation_time_max == prev.translation_time_max,
                    chan.rotation_time_min == prev.rotation_time_min,
                    chan.rotation_time_max == prev.rotation_time_max,
                    chan.scale_time_min == prev.scale_time_min,
                    chan.scale_time_max == prev.scale_time_max,
                decreases n - f,
            {
                let frame_time = read_fx_at(input_buffer, in_base + 4 * f);
                let x = read_fx_at(output_buffer, out_base + 16 * f);
                let y = read_fx_at(output_buffer, out_base + 16 * f + 4);
                let z = read_fx_at(output_buffer, out_base + 16 * f + 8);
                let w = read_fx_at(output_buffer, out_base + 16 * f + 12);
                chan.rotations.push(Quat { x, y, z, w });
                chan.rotation_times.push(frame_time);
                proof {
                    assert(times_s.subrange(0, f + 1) =~= times_s.subrange(0, f as int).push(
                        times_s[f as int],
                    ));
                    assert(vals_s.subrange(0, f + 1) =~= vals_s.subrange(0, f as int).push(
                        vals_s[f as int],
                    ));
                }
                f = f + 1;
            }
            if n > 0 {
                chan.rotation_time_min = min_vec[0];
                chan.rotation_time_max = max_vec[0];
            }
            proof {
                assert(times_s.subrange(0, n as int) =~= times_s);
                assert(vals_s.subrange(0, n as int) =~= vals_s);
            }
            sparse_channels.insert(bone_index, chan);
        } else if gltf_channel.target.path == scale_str {
            if (output_buffer_view.byte_offset as u128) + 12 * (input_accessor.count as u128) > (
            output_buffer.len() as u128) {
                proof {
                    lemma_extract_err_persists(*file, remap, rig_scale, ci as int + 1, nch);
                }
                return Err(ImportError::AssetReadFailure);
            }
            if bounds_bad {
                proof {
                    lemma_extract_err_persists(*file, remap, rig_scale, ci as int + 1, nch);
                }
                return Err(ImportError::MissingTimeBounds);
            }
            let out_base = output_buffer_view.byte_offset;
            let ghost vals_s = vec3_read_spec(output_buffer@, out_base as int, n as int);
            let mut f: usize = 0;
            while f < n
                invariant
                    f <= n,
                    in_base + 4 * n <= input_buffer.len(),
                    out_base + 12 * n <= output_buffer.len(),
                    times_s == times_read_spec(input_buffer@, in_base as int, n as int),
                    vals_s == vec3_read_spec(output_buffer@, out_base as int, n as int),
                    chan.scale_times@ == prev.scale_times + times_s.subrange(0, f as int),
                    chan.scales@ == prev.scales + vals_s.subrange(0, f as int),
                    chan.translations@ == prev.translations,
                    chan.translation_times@ == prev.translation_times,
                    chan.rotations@ == prev.rotations,
                    chan.rotation_times@ == prev.rotation_times,
                    chan.translation_time_min == prev.translation_time_min,
                    chan.translation_time_max == prev.translation_time_max,
                    chan.rotation_time_min == prev.rotation_time_min,
                    chan.rotation_time_max == prev.rotation_time_max,
                    chan.scale_time_min == prev.scale_time_min,
                    chan.scale_time_max == prev.scale_time_max,
                decreases n - f,
            {
                let frame_time = read_fx_at(input_buffer, in_base + 4 * f);
                let x = read_fx_at(output_buffer, out_base + 12 * f);
                let y = read_fx_at(output_buffer, out_base + 12 * f + 4);
                let z = read_fx_at(output_buffer, out_base + 12 * f + 8);
                chan.scales.push(Fx3 { x, y, z });
                chan.scale_times.push(frame_time);
                proof {
                    assert(times_s.subrange(0, f + 1) =~= times_s.subrange(0, f as int).push(
                        times_s[f as int],
                    ));
                    assert(vals_s.subrange(0, f + 1) =~= vals_s.subrange(0, f as int).push(
                        vals_s[f as int],
                    ));
                }
                f = f + 1;
            }
            if n > 0 {
                chan.scale_time_min = min_vec[0];
                chan.scale_time_max = max_vec[0];
            }
            proof {
                assert(times_s.subrange(0, n as int) =~= times_s);
                assert(vals_s.subrange(0, n as int) =~= vals_s);
            }
            sparse_channels.insert(bone_index, chan);
        } else {
            sparse_channels.insert(bone_index, chan);
        }
        proof {
            assert(channels_view(sparse_channels@) =~= cur_view.insert(bone_index, chan@));
            assert(extract_channels(*file, remap, rig_scale, ci as int + 1) == Ok::<
                Map<usize, SparseChannelView>,
                ImportError,
            >(channels_view(sparse_channels@)));
        }
        ci = ci + 1;
    }

    // discover time bounds; an animation with no charted joint keeps the
    // empty-clip defaults, which give zero dense frames
    let mut min_time = Fx { bits: 655294464 };
    let mut max_time = Fx { bits: 0 };
    let mut have_bounds = false;
    let mut j: usize = 0;
    while j < skeletal_mesh.rig.joint_count
        invariant
            j <= skeletal_mesh.rig.joint_count,
            match bounds_fold(channels_view(sparse_channels@), j as int) {
                None => !have_bounds && min_time == (Fx { bits: 655294464i64 }) && max_time
                    == (Fx { bits: 0 }),
                Some(b) => have_bounds && min_time == b.0 && max_time == b.1,
            },
        decreases skeletal_mesh.rig.joint_count - j,
    {
        match sparse_channels.get(&j) {
            None => {},
            Some(channel) => {
                let chan_min = fx_min(
                    fx_min(channel.translation_time_min, channel.rotation_time_min),
                    channel.scale_time_min,
                );
                let chan_max = fx_max(
                    fx_max(channel.translation_time_max, channel.rotation_time_max),
                    channel.scale_time_max,
                );
                if have_bounds {
                    min_time = fx_min(min_time, chan_min);
                    max_time = fx_max(max_time, chan_max);
                } else {
                    min_time = chan_min;
                    max_time = chan_max;
                    have_bounds = true;
                }
            },
        }
        j = j + 1;
    }

    // make dense
    let sample_rate = Fx { bits: DEFAULT_SAMPLE_RATE_BITS };
    let time_step = fx_div(fx_one(), sample_rate);
    let frame_count = fx_floor_index(fx_div(max_time, time_step));

    let mut joints: Vec<Vec<TRS>> = Vec::new();
    let mut jr: usize = 0;
    while jr < skeletal_mesh.rig.joint_count
        invariant
            jr <= skeletal_mesh.rig.joint_count,
            joints.len() == jr,
            forall|k: int|
                0 <= k < jr ==> (#[trigger] joints@[k])@ =~= Seq::new(
                    frame_count as nat,
                    |f: int| trs_identity_spec(),
                ),
        decreases skeletal_mesh.rig.joint_count - jr,
    {
        let mut row: Vec<TRS> = Vec::new();
        let mut fr: usize = 0;
        while fr < frame_count
            invariant
                fr <= frame_count,
                row.len() == fr,
                forall|f: int| 0 <= f < fr ==> (#[trigger] row@[f]) == trs_identity_spec(),
            decreases frame_count - fr,
        {
            row.push(TRS::default());
            fr = fr + 1;
        }
        proof {
            assert(row@ =~= Seq::new(frame_count as nat, |f: int| trs_identity_spec()));
        }
        joints.push(row);
        jr = jr + 1;
    }

    let mut dense = SkeletalAnimation {
        name: anim_name,
        sample_rate,
        num_frames: frame_count,
        min_time,
        max_time,
        joints,
    };
    make_dense(&mut dense, &skeletal_mesh.rig, time_step, &sparse_channels);
    Ok(dense)
}

/// The first node that carries a skin, scanning from `i`.
pub open spec fn first_skinned_node_from(nodes: Seq<GltfNode>, i: int) -> Option<int>
    decreases nodes.len() - i,
{
    if i >= nodes.len() {
        None
    } else if nodes[i].skin is Some {
        Some(i)
    } else {
        first_skinned_node_from(nodes, i + 1)
    }
}

/// Why locating the skin and its root bone can fail: no skinned node, no
/// skins array, a skin index out of range, an empty joint list, or a root
/// bone index out of range.
pub open spec fn skin_locate_fails(file: GltfFile) -> bool {
    ||| first_skinned_node_from(file.nodes@, 0) is None
    ||| file.skins is None
    ||| {
        &&& first_skinned_node_from(file.nodes@, 0) is Some
        &&& file.skins is Some
        &&& {
            let skin_index = file.nodes@[first_skinned_node_from(
                file.nodes@,
                0,
            ).unwrap()].skin.unwrap();
            ||| skin_index >= file.skins.unwrap().len()
            ||| skin_index < file.skins.unwrap().len() && {
                let skin = file.skins.unwrap()[skin_index as int];
                ||| skin.joints.len() == 0
                ||| skin.joints.len() > 0 && skin.joints[0] >= file.nodes.len()
            }
        }
    }
}

/// The source node index of the root bone: the first joint of the skin of
/// the first skinned node.
pub open spec fn root_bone_source_spec(file: GltfFile) -> int {
    let skin_index = file.nodes@[first_skinned_node_from(file.nodes@, 0).unwrap()].skin.unwrap();
    file.skins.unwrap()[skin_index as int].joints[0] as int
}

/// Canonical joint `j` is covered by some source node in the remap table.
pub open spec fn canonical_index_covered(rig: Rig, j: int) -> bool {
    exists|s: usize|
        #[trigger] rig.remap_table.joints@.contains_key(s) && rig.remap_table.joints@[s] == j
}

/// How a built rig's joints tie back to the source file: the remap table
/// is an injection from visited source nodes onto the canonical indices,
/// and each canonical joint carries exactly its source node's name and
/// bind TRS.
pub open spec fn rig_linked_to_file(rig: Rig, file: GltfFile) -> bool {
    let remap = rig.remap_table.joints@;
    &&& forall|s: usize|
        #[trigger] remap.contains_key(s) ==> remap[s] < rig.joint_count && (s as int)
            < file.nodes.len()
    &&& forall|s1: usize, s2: usize|
        remap.contains_key(s1) && remap.contains_key(s2) && s1 != s2 ==> (#[trigger] remap[s1])
            != (#[trigger] remap[s2])
    &&& forall|j: int|
        0 <= j < rig.joint_count ==> #[trigger] canonical_index_covered(rig, j)
    &&& forall|s: usize|
        #[trigger] remap.contains_key(s) ==> {
            let n = file.nodes@[s as int];
            &&& node_trs_wf(n)
            &&& rig.joint_names@[remap[s] as int] == n.name
            &&& rig.joint_transforms@[remap[s] as int].translation == node_trs_spec(n).0
            &&& rig.joint_transforms@[remap[s] as int].rotation == node_trs_spec(n).1
            &&& rig.joint_transforms@[remap[s] as int].scale == node_trs_spec(n).2
        }
}

/// One joint record from its source node: canonical and parent indices
/// plus the node's bind TRS.
pub fn joint_from_gltf_node(node: &GltfNode, joint_index: usize, parent_joint_index: usize) -> (r:
    Result<Joint, ImportError>)
    ensures
        r is Ok <==> node_trs_wf(*node),
        r is Ok ==> r.unwrap() == (Joint {
            index: joint_index,
            parent_index: parent_joint_index,
            translation: node_trs_spec(*node).0,
            rotation: node_trs_spec(*node).1,
            scale: node_trs_spec(*node).2,
        }),
        r is Err ==> r.unwrap_err() == ImportError::MalformedNodeGraph,
{
    match trs_from_gltf_node(node) {
        Ok((translation, rotation, scale)) => Ok(
            Joint {
                index: joint_index,
                parent_index: parent_joint_index,
                translation,
                rotation,
                scale,
            },
        ),
        Err(e) => Err(e),
    }
}

/// How many entries of a visit chart are still unvisited.
pub open spec fn count_falses(s: Seq<bool>) -> int
    decreases s.len(),
{
    if s.len() == 0 {
        0
    } else {
        (if s[0] {
            0int
        } else {
            1int
        }) + count_falses(s.drop_first())
    }
}

proof fn lemma_count_falses_nonneg(s: Seq<bool>)
    ensures
        count_falses(s) >= 0,
    decreases s.len(),
{
    if s.len() > 0 {
        lemma_count_falses_nonneg(s.drop_first());
    }
}

proof fn lemma_count_falses_push(s: Seq<bool>, b: bool)
    ensures
        count_falses(s.push(b)) == count_falses(s) + (if b {
            0int
        } else {
            1int
        }),
    decreases s.len(),
{
    if s.len() == 0 {
        assert(s.push(b).drop_first() =~= Seq::<bool>::empty());
        assert(count_falses(Seq::<bool>::empty()) == 0);
        assert(s.push(b)[0] == b);
    } else {
        assert(s.push(b).drop_first() =~= s.drop_first().push(b));
        lemma_count_falses_push(s.drop_first(), b);
    }
}

proof fn lemma_count_falses_update(s: Seq<bool>, i: int)
    requires
        0 <= i < s.len(),
        !s[i],
    ensures
        count_falses(s.update(i, true)) == count_falses(s) - 1,
    decreases s.len(),
{
    if i == 0 {
        assert(s.update(0, true).drop_first() =~= s.drop_first());
    } else {
        assert(s.update(i, true).drop_first() =~= s.drop_first().update(i - 1, true));
        lemma_count_falses_update(s.drop_first(), i - 1);
    }
}

/// The children of one visit as the stack receives them: reversed, so the
/// leftmost child in file order is popped (and so charted) first, each
/// paired with its parent's canonical joint index.
pub open spec fn reversed_children(ch: Seq<usize>, parent_joint: int) -> Seq<(usize, usize)> {
    Seq::new(ch.len(), |i: int| (ch[ch.len() - 1 - i], parent_joint as usize))
}

/// The depth-first walk rig construction performs, one visit per step:
/// chart the node on top of the stack, give it the next canonical index
/// (the number of nodes already charted), and stack its children in
/// reverse.  Yields the visit order -- (source node, parent joint) pairs,
/// the canonical index being the position -- or nothing where the walk
/// reaches a node twice, names a node out of range, or meets a node
/// transform of the wrong arity.
pub open spec fn dfs_walk(
    nodes: Seq<GltfNode>,
    visited: Seq<bool>,
    order: Seq<(usize, usize)>,
    stack: Seq<(usize, usize)>,
) -> Option<Seq<(usize, usize)>>
    decreases count_falses(visited), stack.len(),
    via dfs_walk_decreases
{
    if stack.len() == 0 {
        Some(order)
    } else {
        let src = stack.last().0;
        let parent_joint = stack.last().1;
        let rest = stack.drop_last();
        if src >= nodes.len() || src >= visited.len() || visited[src as int] {
            None
        } else if !node_trs_wf(nodes[src as int]) {
            None
        } else {
            let visited2 = visited.update(src as int, true);
            let order2 = order.push((src, parent_joint));
            match nodes[src as int].children {
                None => dfs_walk(nodes, visited2, order2, rest),
                Some(ch) => {
                    if exists|k: int| 0 <= k < ch@.len() && (#[trigger] ch@[k]) >= nodes.len() {
                        None
                    } else {
                        dfs_walk(
                            nodes,
                            visited2,
                            order2,
                            rest + reversed_children(ch@, order.len() as int),
                        )
                    }
                },
            }
        }
    }
}

#[via_fn]
proof fn dfs_walk_decreases(
    nodes: Seq<GltfNode>,
    visited: Seq<bool>,
    order: Seq<(usize, usize)>,
    stack: Seq<(usize, usize)>,
) {
    if stack.len() != 0 {
        let src = stack.last().0;
        if !(src >= nodes.len() || src >= visited.len() || visited[src as int]) {
            lemma_count_falses_update(visited, src as int);
            lemma_count_falses_nonneg(visited.update(src as int, true));
        }
    }
}

/// The whole rig walk of a file: from the root bone, nothing visited yet.
pub open spec fn rig_walk_spec(file: GltfFile) -> Option<Seq<(usize, usize)>> {
    dfs_walk(
        file.nodes@,
        Seq::new(file.nodes@.len(), |i: int| false),
        Seq::empty(),
        seq![(root_bone_source_spec(file) as usize, 0usize)],
    )
}

/// When rig construction is owed success: the skin and root bone can be
/// located and the walk from the root bone completes.
pub open spec fn node_graph_ok(file: GltfFile) -> bool {
    &&& !skin_locate_fails(file)
    &&& rig_walk_spec(file) is Some
}

/// Build the rig by a depth-first traversal from the root bone: the root
/// gets canonical index 0, every node gets the next unused index before
/// its children, and the remap table records source-to-canonical pairs.
/// A source whose skin cannot be located is rejected as `MissingSkin`; a
/// node graph that is not a tree below the root (a cycle, a shared child,
/// an out-of-range index or a bad node transform) as `MalformedNodeGraph`.
pub fn load_rig(file: &GltfFile) -> (r: Result<Rig, ImportError>)
    ensures
        r is Ok <==> node_graph_ok(*file),
        (r is Err && r.unwrap_err() == ImportError::MissingSkin) <==> skin_locate_fails(*file),
        r is Err ==> r.unwrap_err() == ImportError::MissingSkin || r.unwrap_err()
            == ImportError::MalformedNodeGraph,
        r is Ok ==> {
            let rig = r.unwrap();
            let order = rig_walk_spec(*file).unwrap();
            &&& rig_wf(rig)
            &&& 0 < rig.joint_count <= file.nodes.len()
            &&& rig_linked_to_file(rig, *file)
            &&& rig.remap_table.joints@.contains_key(root_bone_source_spec(*file) as usize)
            &&& rig.remap_table.joints@[root_bone_source_spec(*file) as usize] == 0
            &&& rig.joint_count == order.len()
            &&& forall|i: int|
                0 <= i < order.len() ==> rig.remap_table.joints@.contains_key(
                    (#[trigger] order[i]).0,
                ) && rig.remap_table.joints@[order[i].0] == i && rig.joint_parents@[i]
                    == order[i].1
        },
{
    let mut skinned_node_index: Option<usize> = None;
    let mut i: usize = 0;
    while i < file.nodes.len() && skinned_node_index.is_none()
        invariant
            i <= file.nodes.len(),
            skinned_node_index is None ==> first_skinned_node_from(file.nodes@, 0)
                == first_skinned_node_from(file.nodes@, i as int),
            skinned_node_index is Some ==> lift_opt(skinned_node_index)
                == first_skinned_node_from(file.nodes@, 0) && skinned_node_index.unwrap()
                < file.nodes.len() && file.nodes@[skinned_node_index.unwrap() as int].skin
                is Some,
        decreases file.nodes.len() - i,
    {
        if file.nodes[i].skin.is_some() {
            skinned_node_index = Some(i);
        }
        i = i + 1;
    }
    let skinned = match skinned_node_index {
        None => {
            return Err(ImportError::MissingSkin);
        },
        Some(s) => s,
    };
    let file_skins = match &file.skins {
        None => {
            return Err(ImportError::MissingSkin);
        },
        Some(sk) => sk,
    };
    let skin_index = match file.nodes[skinned].skin {
        Some(si) => si,
        None => {
            return Err(ImportError::MissingSkin);
        },
    };
    if skin_index >= file_skins.len() {
        return Err(ImportError::MissingSkin);
    }
    let skin = &file_skins[skin_index];
    if skin.joints.len() == 0 {
        return Err(ImportError::MissingSkin);
    }
    let root_bone_node_index = skin.joints[0];
    if root_bone_node_index >= file.nodes.len() {
        return Err(ImportError::MissingSkin);
    }

    let mut rig = Rig {
        joint_transforms: Vec::new(),
        joint_count: 0,
        joint_names: Vec::new(),
        joint_children: Vec::new(),
        joint_parents: Vec::new(),
        remap_table: RigRemapTable { joints: HashMap::new() },
    };

    let mut visited: Vec<bool> = Vec::new();
    let mut v: usize = 0;
    while v < file.nodes.len()
        invariant
            v <= file.nodes.len(),
            visited.len() == v,
            count_falses(visited@) == v,
            forall|m: int| 0 <= m < v ==> !(#[trigger] visited@[m]),
        decreases file.nodes.len() - v,
    {
        proof {
            lemma_count_falses_push(visited@, false);
        }
        visited.push(false);
        v = v + 1;
    }

    proof {
        assert(!skin_locate_fails(*file));
        assert(root_bone_source_spec(*file) == root_bone_node_index as int);
    }
    let mut stack: Vec<(usize, usize)> = Vec::new();
    stack.push((root_bone_node_index, 0));

    // ghost charts: the visit order, whose positions are the canonical
    // joint indices, and where each joint sits in its parent's child list
    let ghost mut order: Seq<(usize, usize)> = Seq::empty();
    let ghost mut childpos: Seq<int> = Seq::empty();
    proof {
        assert(visited@ =~= Seq::new(file.nodes@.len(), |m: int| false));
        assert(stack@ =~= seq![(root_bone_node_index, 0usize)]);
        assert(dfs_walk(file.nodes@, visited@, order, stack@) == rig_walk_spec(*file));
    }

    while stack.len() > 0
        invariant
            visited.len() == file.nodes.len(),
            root_bone_node_index < file.nodes.len(),
            !skin_locate_fails(*file),
            root_bone_source_spec(*file) == root_bone_node_index as int,
            rig.joint_transforms.len() == rig.joint_names.len(),
            rig.joint_transforms.len() == rig.joint_children.len(),
            rig.joint_transforms.len() == rig.joint_parents.len(),
            rig.joint_transforms.len() + count_falses(visited@) == file.nodes.len(),
            rig.joint_transforms.len() > 0 ==> rig.joint_parents@[0] == 0,
            rig.joint_transforms.len() == 0 ==> stack@ =~= seq![
                (root_bone_node_index, 0usize),
            ] && rig.remap_table.joints@ =~= Map::<usize, usize>::empty(),
            forall|k: int|
                0 <= k < stack.len() ==> ((#[trigger] stack@[k]).1 < rig.joint_transforms.len()
                    || stack@[k].1 == 0),
            forall|k: int|
                0 <= k < stack.len() ==> (#[trigger] stack@[k]).0 < file.nodes.len(),
            forall|j: int|
                1 <= j < rig.joint_parents.len() ==> (#[trigger] rig.joint_parents@[j]) < j,
            forall|j: int|
                0 <= j < rig.joint_transforms.len() ==> ((#[trigger] rig.joint_transforms@[j]).index
                    == j && rig.joint_transforms@[j].parent_index == rig.joint_parents@[j]),
            forall|p: int, ci: int|
                0 <= p < rig.joint_children.len() && 0 <= ci < rig.joint_children@[p].len() ==> {
                    let c = (#[trigger] rig.joint_children@[p]@[ci]) as int;
                    p < c < rig.joint_children.len() && rig.joint_parents@[c] == p
                },
            forall|p: int, ci: int, ci2: int|
                0 <= p < rig.joint_children.len() && 0 <= ci < ci2 < rig.joint_children@[p].len()
                    ==> (#[trigger] rig.joint_children@[p]@[ci]) < (#[trigger]
                rig.joint_children@[p]@[ci2]),
            childpos.len() == rig.joint_transforms.len(),
            forall|c: int|
                #![trigger childpos[c]]
                1 <= c < childpos.len() ==> 0 <= childpos[c] < rig.joint_children@[
                    rig.joint_parents@[c] as int
                ].len() && rig.joint_children@[rig.joint_parents@[c] as int]@[childpos[c]] == c,
            forall|s: usize|
                #[trigger] rig.remap_table.joints@.contains_key(s)
                    ==> rig.remap_table.joints@[s] < rig.joint_transforms.len() && (s as int)
                    < file.nodes.len() && visited@[s as int],
            forall|s1: usize, s2: usize|
                rig.remap_table.joints@.contains_key(s1) && rig.remap_table.joints@.contains_key(
                    s2,
                ) && s1 != s2 ==> (#[trigger] rig.remap_table.joints@[s1]) != (#[trigger]
                rig.remap_table.joints@[s2]),
            order.len() == rig.joint_transforms.len(),
            forall|j: int|
                #![trigger order[j]]
                0 <= j < order.len() ==> rig.remap_table.joints@.contains_key(order[j].0)
                    && rig.remap_table.joints@[order[j].0] == j && rig.joint_parents@[j]
                    == order[j].1,
            dfs_walk(file.nodes@, visited@, order, stack@) == rig_walk_spec(*file),
            forall|s: usize|
                #[trigger] rig.remap_table.joints@.contains_key(s) ==> {
                    let n = file.nodes@[s as int];
                    &&& node_trs_wf(n)
                    &&& rig.joint_names@[rig.remap_table.joints@[s] as int] == n.name
                    &&& rig.joint_transforms@[rig.remap_table.joints@[s] as int].translation
                        == node_trs_spec(n).0
                    &&& rig.joint_transforms@[rig.remap_table.joints@[s] as int].rotation
                        == node_trs_spec(n).1
                    &&& rig.joint_transforms@[rig.remap_table.joints@[s] as int].scale
                        == node_trs_spec(n).2
                },
            rig.joint_transforms.len() > 0 ==> rig.remap_table.joints@.contains_key(
                root_bone_node_index,
            ) && rig.remap_table.joints@[root_bone_node_index] == 0,
        decreases count_falses(visited@), stack.len(),
    {
        proof {
            lemma_count_falses_nonneg(visited@);
        }
        let ghost visited_pre = visited@;
        let ghost stack_pre = stack@;
        let ghost order_pre = order;
        let entry = stack.pop();
        let (source_joint_index, parent_joint_index) = match entry {
            Some(e) => e,
            None => {
                return Err(ImportError::MalformedNodeGraph);
            },
        };
        let ghost stack_rest = stack@;
        if visited[source_joint_index] {
            // the same node is reachable twice: not a tree
            proof {
                assert(dfs_walk(file.nodes@, visited_pre, order, stack_pre) is None);
            }
            return Err(ImportError::MalformedNodeGraph);
        }
        proof {
            lemma_count_falses_update(visited@, source_joint_index as int);
            // an unvisited node cannot be charted yet
            assert(!rig.remap_table.joints@.contains_key(source_joint_index));
        }
        visited[source_joint_index] = true;

        let node = &file.nodes[source_joint_index];
        let joint_index = rig.joint_transforms.len();

        // remap children as we walk the hierarchy (root joint is always index zero)
        rig.remap_table.joints.insert(source_joint_index, joint_index);

        let joint = match joint_from_gltf_node(node, joint_index, parent_joint_index) {
            Ok(j) => j,
            Err(e) => {
                proof {
                    assert(dfs_walk(file.nodes@, visited_pre, order, stack_pre) is None);
                }
                return Err(e);
            },
        };
        rig.joint_transforms.push(joint);
        rig.joint_names.push(node.name.clone());
        rig.joint_parents.push(parent_joint_index);
        rig.joint_children.push(Vec::<usize>::new());
        if joint_index != 0 {
            // add this joint to its parents child indices array
            rig.joint_children[parent_joint_index].push(joint_index);
        }
        match &node.children {
            None => {
                proof {
                    assert(stack@ =~= stack_pre.drop_last());
                }
            },
            Some(child_node_indices) => {
                // push in reverse so the leftmost child is visited first
                let mut t = child_node_indices.len();
                while t > 0
                    invariant
                        !skin_locate_fails(*file),
                        t <= child_node_indices.len(),
                        visited.len() == file.nodes.len(),
                        joint_index < rig.joint_transforms.len(),
                        stack_pre.len() > 0,
                        stack_pre.last() == (source_joint_index, parent_joint_index),
                        source_joint_index < file.nodes.len(),
                        visited_pre.len() == file.nodes.len(),
                        !visited_pre[source_joint_index as int],
                        node_trs_wf(file.nodes@[source_joint_index as int]),
                        file.nodes@[source_joint_index as int].children == Some(
                            *child_node_indices,
                        ),
                        order == order_pre,
                        dfs_walk(file.nodes@, visited_pre, order_pre, stack_pre)
                            == rig_walk_spec(*file),
                        stack@ =~= stack_rest + Seq::new(
                            (child_node_indices.len() - t) as nat,
                            |i: int|
                                (
                                    child_node_indices@[child_node_indices.len() - 1 - i],
                                    joint_index,
                                ),
                        ),
                        forall|k: int|
                            t <= k < child_node_indices.len() ==> (#[trigger]
                            child_node_indices@[k]) < file.nodes.len(),
                        forall|k: int|
                            0 <= k < stack.len() ==> ((#[trigger] stack@[k]).1
                                < rig.joint_transforms.len() || stack@[k].1 == 0),
                        forall|k: int|
                            0 <= k < stack.len() ==> (#[trigger] stack@[k]).0 < file.nodes.len(),
                    decreases t,
                {
                    t = t - 1;
                    let child = child_node_indices[t];
                    if child >= file.nodes.len() {
                        proof {
                            assert(dfs_walk(file.nodes@, visited_pre, order, stack_pre)
                                is None);
                        }
                        return Err(ImportError::MalformedNodeGraph);
                    }
                    stack.push((child, joint_index));
                }
                proof {
                    assert(stack@ =~= stack_pre.drop_last() + reversed_children(
                        child_node_indices@,
                        joint_index as int,
                    ));
                }
            },
        }
        proof {
            lemma_count_falses_nonneg(visited@);
            order = order.push((source_joint_index, parent_joint_index));
            if joint_index == 0 {
                childpos = childpos.push(0);
            } else {
                childpos = childpos.push(
                    rig.joint_children@[parent_joint_index as int].len() - 1,
                );
            }
            assert(visited@ =~= visited_pre.update(source_joint_index as int, true));
            assert(dfs_walk(file.nodes@, visited@, order, stack@) == dfs_walk(
                file.nodes@,
                visited_pre,
                order_pre,
                stack_pre,
            ));
        }
    }

    rig.joint_count = rig.joint_transforms.len();
    proof {
        lemma_count_falses_nonneg(visited@);
        assert(dfs_walk(file.nodes@, visited@, order, stack@) == Some(order));
        assert forall|c: int|
            1 <= c < rig.joint_count implies #[trigger] joint_in_parents_children(rig, c) by {
            assert(rig.joint_children@[rig.joint_parents@[c] as int]@[childpos[c]] == c);
        }
        assert forall|j: int|
            0 <= j < rig.joint_count implies #[trigger] canonical_index_covered(rig, j) by {
            assert(rig.remap_table.joints@.contains_key(order[j].0)
                && rig.remap_table.joints@[order[j].0] == j);
        }
    }
    Ok(rig)
}

/// Remap one per-vertex joint index from source-file numbering to
/// canonical rig numbering; an index the table does not chart (including a
/// negative lane) keeps its value.
pub open spec fn remap_lane_spec(remap: Map<usize, usize>, x: int) -> int {
    if 0 <= x && remap.contains_key(x as usize) {
        remap[x as usize] as int
    } else {
        x
    }
}

pub open spec fn remap_int4_spec(remap: Map<usize, usize>, v: Int4) -> Int4 {
    Int4 {
        x: remap_lane_spec(remap, v.x as int) as i32,
        y: remap_lane_spec(remap, v.y as int) as i32,
        z: remap_lane_spec(remap, v.z as int) as i32,
        w: remap_lane_spec(remap, v.w as int) as i32,
    }
}

fn remap_lane(remap: &RigRemapTable, x: i32, rig_count: usize) -> (r: i32)
    requires
        forall|s: usize|
            #[trigger] remap.joints@.contains_key(s) ==> remap.joints@[s] < rig_count,
        rig_count < 0x8000_0000,
    ensures
        r as int == remap_lane_spec(remap.joints@, x as int),
{
    if x >= 0 {
        match remap.joints.get(&(x as usize)) {
            Some(idx) => *idx as i32,
            None => x,
        }
    } else {
        x
    }
}

/// Compose the bind pose down the subtree rooted at `joint_index` and
/// store each joint's inverse bind matrix: the fixed-point inverse of its
/// accumulated bind-world matrix.  Computed once at load time, never at
/// runtime.
pub fn recur_build_inverse_bind_matrices(
    rig: &Rig,
    joint_local_transforms: &Vec<Mat4>,
    inverse_bind_matrices: &mut Vec<Mat4>,
    joint_index: usize,
    parent: &Mat4,
)
    requires
        rig_wf(*rig),
        joint_local_transforms.len() == rig.joint_count,
        old(inverse_bind_matrices).len() == rig.joint_count,
        joint_index < rig.joint_count,
    ensures
        final(inverse_bind_matrices).len() == rig.joint_count,
        forall|k: int|
            0 <= k < rig.joint_count ==> final(inverse_bind_matrices)@[k] == (if in_subtree(
                rig.joint_parents@,
                joint_index as int,
                k,
            ) {
                mat4_inverse_spec(
                    chain_world(
                        rig.joint_parents@,
                        joint_local_transforms@,
                        joint_index as int,
                        *parent,
                        k,
                    ),
                )
            } else {
                old(inverse_bind_matrices)@[k]
            }),
{
    let ghost parents = rig.joint_parents@;
    let ghost inv0 = inverse_bind_matrices@;
    let n = rig.joint_count;
    let mut worlds: Vec<Mat4> = Vec::new();
    let mut member: Vec<bool> = Vec::new();
    let mut k: usize = 0;
    while k < n
        invariant
            rig_wf(*rig),
            n == rig.joint_count,
            parents == rig.joint_parents@,
            joint_index < n,
            joint_local_transforms.len() == n,
            inverse_bind_matrices.len() == n,
            inv0.len() == n,
            worlds.len() == k,
            member.len() == k,
            k <= n,
            forall|m: int|
                0 <= m < k ==> member@[m] == in_subtree(parents, joint_index as int, m),
            forall|m: int|
                0 <= m < k && member@[m] ==> worlds@[m] == chain_world(
                    parents,
                    joint_local_transforms@,
                    joint_index as int,
                    *parent,
                    m,
                ),
            forall|m: int|
                0 <= m < k ==> inverse_bind_matrices@[m] == (if member@[m] {
                    mat4_inverse_spec(
                        chain_world(
                            parents,
                            joint_local_transforms@,
                            joint_index as int,
                            *parent,
                            m,
                        ),
                    )
                } else {
                    inv0[m]
                }),
            forall|m: int| k <= m < n ==> inverse_bind_matrices@[m] == inv0[m],
        decreases n - k,
    {
        let is_mem: bool = if k == joint_index {
            true
        } else if k > joint_index {
            let p = rig.joint_parents[k];
            member[p]
        } else {
            false
        };
        if is_mem {
            let pw: Mat4 = if k == joint_index {
                *parent
            } else {
                let p = rig.joint_parents[k];
                worlds[p]
            };
            let bind_pose = mat4_mul(&pw, &joint_local_transforms[k]);
            inverse_bind_matrices[k] = mat4_inverse(&bind_pose);
            worlds.push(bind_pose);
            member.push(true);
        } else {
            worlds.push(mat4_identity());
            member.push(false);
        }
        k = k + 1;
    }
}

/// Load a skinned entity: geometry, rig, bind transforms and inverse-bind
/// matrices.  The mesh's per-vertex joint indices are remapped into
/// canonical rig numbering; a mesh without joint indices or joint weights
/// cannot be skinned and is rejected.
pub fn load_skeletal_entity(name: &str, file: &GltfFile) -> (r: Result<SkeletalMesh, ImportError>)
    requires
        file.nodes.len() < 0x8000_0000,
    ensures
        (file.meshes is None || file.meshes.unwrap().len() == 0
            || file.meshes.unwrap()[0].primitives.len() == 0) ==> r == Err::<
            SkeletalMesh,
            ImportError,
        >(ImportError::MalformedNodeGraph),
        (file.meshes is Some && file.meshes.unwrap().len() > 0
            && file.meshes.unwrap()[0].primitives.len() > 0) ==> {
            let prim = file.meshes.unwrap()[0].primitives[0];
            match crate::gltf::mesh::mesh_indices_spec(*file, prim.indices) {
                Err(e) => r == Err::<SkeletalMesh, ImportError>(e),
                Ok(inds) => match crate::gltf::mesh::attrs_fold(
                    *file,
                    prim.attributes@,
                    prim.attributes.len() as int,
                ) {
                    Err(e) => r == Err::<SkeletalMesh, ImportError>(e),
                    Ok(st) => {
                        if st.joint_indices.len() == 0 || st.joint_weights.len() == 0 {
                            r == Err::<SkeletalMesh, ImportError>(
                                ImportError::UnsupportedAccessorShape,
                            )
                        } else if skin_locate_fails(*file) {
                            r == Err::<SkeletalMesh, ImportError>(ImportError::MissingSkin)
                        } else if rig_walk_spec(*file) is Some {
                            &&& r is Ok
                            &&& r.unwrap().mesh.indices@ == inds
                            &&& r.unwrap().mesh.attribs.position@ == st.position
                            &&& r.unwrap().mesh.attribs.uv0@ == st.uv0
                            &&& r.unwrap().mesh.attribs.joint_weights@ == st.joint_weights
                            &&& r.unwrap().mesh.attribs.joint_indices@.len()
                                == st.joint_indices.len()
                            &&& forall|v: int|
                                0 <= v < st.joint_indices.len() ==> (#[trigger]
                                r.unwrap().mesh.attribs.joint_indices@[v]) == remap_int4_spec(
                                    r.unwrap().rig.remap_table.joints@,
                                    st.joint_indices[v],
                                )
                            &&& r.unwrap().mesh.attribs.normal@ == Seq::<Fx3>::empty()
                            &&& r.unwrap().mesh.attribs.tangent@ == Seq::<Fx3>::empty()
                            &&& r.unwrap().mesh.attribs.binormal@ == Seq::<Fx3>::empty()
                            &&& r.unwrap().mesh.attribs.color@ == Seq::<Fx4>::empty()
                            &&& r.unwrap().mesh.attribs.uv1@ == Seq::<Fx2>::empty()
                        } else {
                            r == Err::<SkeletalMesh, ImportError>(
                                ImportError::MalformedNodeGraph,
                            )
                        }
                    },
                },
            }
        },
        r is Ok ==> {
            let m = r.unwrap();
            &&& skeletal_mesh_wf(m)
            &&& rig_linked_to_file(m.rig, *file)
            &&& m.rig.joint_count > 0
            &&& forall|j: int|
                0 <= j < m.rig.joint_count ==> (#[trigger] m.joint_local_transforms@[j])
                    == mat4_trs_spec(
                    m.rig.joint_transforms@[j].translation,
                    m.rig.joint_transforms@[j].rotation,
                    m.rig.joint_transforms@[j].scale,
                )
            &&& forall|j: int|
                0 <= j < m.rig.joint_count ==> (#[trigger] m.joint_transforms@[j]) == (TRS {
                    translation: m.rig.joint_transforms@[j].translation,
                    rotation: m.rig.joint_transforms@[j].rotation,
                    scale: m.rig.joint_transforms@[j].scale,
                })
            &&& forall|j: int|
                0 <= j < m.rig.joint_count ==> (#[trigger] m.inverse_bind_matrices@[j])
                    == mat4_inverse_spec(
                    chain_world(
                        m.rig.joint_parents@,
                        m.joint_local_transforms@,
                        0,
                        mat4_identity_spec(),
                        j,
                    ),
                )
        },
{
    let mut mesh = match crate::gltf::mesh::load_mesh(name, file) {
        Ok(m) => m,
        Err(e) => {
            return Err(e);
        },
    };
    if mesh.attribs.joint_indices.len() == 0 {
        return Err(ImportError::UnsupportedAccessorShape);
    }
    if mesh.attribs.joint_weights.len() == 0 {
        return Err(ImportError::UnsupportedAccessorShape);
    }

    let rig = match load_rig(file) {
        Ok(rg) => rg,
        Err(e) => {
            return Err(e);
        },
    };

    // remap mesh joint indices into canonical rig numbering
    let mut joint_indices: Vec<Int4> = Vec::new();
    let mut i: usize = 0;
    let nverts = mesh.attribs.joint_indices.len();
    while i < nverts
        invariant
            rig_wf(rig),
            rig_linked_to_file(rig, *file),
            rig.joint_count <= file.nodes.len(),
            file.nodes.len() < 0x8000_0000,
            i <= nverts,
            nverts == mesh.attribs.joint_indices.len(),
            joint_indices.len() == i,
            forall|v: int|
                0 <= v < i ==> (#[trigger] joint_indices@[v]) == remap_int4_spec(
                    rig.remap_table.joints@,
                    mesh.attribs.joint_indices@[v],
                ),
        decreases nverts - i,
    {
        let v = mesh.attribs.joint_indices[i];
        let remapped = Int4 {
            x: remap_lane(&rig.remap_table, v.x, rig.joint_count),
            y: remap_lane(&rig.remap_table, v.y, rig.joint_count),
            z: remap_lane(&rig.remap_table, v.z, rig.joint_count),
            w: remap_lane(&rig.remap_table, v.w, rig.joint_count),
        };
        joint_indices.push(remapped);
        i = i + 1;
    }
    mesh.attribs.joint_indices = joint_indices;

    // build joint local transforms
    let n = rig.joint_count;
    let mut joint_local_transforms: Vec<Mat4> = Vec::new();
    let mut joint_transforms: Vec<TRS> = Vec::new();
    let mut j: usize = 0;
    while j < n
        invariant
            rig_wf(rig),
            n == rig.joint_count,
            j <= n,
            joint_local_transforms.len() == j,
            joint_transforms.len() == j,
            forall|k: int|
                0 <= k < j ==> (#[trigger] joint_local_transforms@[k]) == mat4_trs_spec(
                    rig.joint_transforms@[k].translation,
                    rig.joint_transforms@[k].rotation,
                    rig.joint_transforms@[k].scale,
                ),
            forall|k: int|
                0 <= k < j ==> (#[trigger] joint_transforms@[k]) == (TRS {
                    translation: rig.joint_transforms@[k].translation,
                    rotation: rig.joint_transforms@[k].rotation,
                    scale: rig.joint_transforms@[k].scale,
                }),
        decreases n - j,
    {
        let joint = rig.joint_transforms[j];
        joint_local_transforms.push(mat4_trs(&joint.translation, &joint.rotation, &joint.scale));
        joint_transforms.push(
            TRS { translation: joint.translation, rotation: joint.rotation, scale: joint.scale },
        );
        j = j + 1;
    }

    // build inverse binds
    let mut inverse_bind_matrices: Vec<Mat4> = Vec::new();
    let mut j2: usize = 0;
    while j2 < n
        invariant
            j2 <= n,
            inverse_bind_matrices.len() == j2,
        decreases n - j2,
    {
        inverse_bind_matrices.push(mat4_identity());
        j2 = j2 + 1;
    }
    let ident = mat4_identity();
    if n > 0 {
        recur_build_inverse_bind_matrices(
            &rig,
            &joint_local_transforms,
            &mut inverse_bind_matrices,
            0,
            &ident,
        );
        proof {
            assert forall|k: int| 0 <= k < n implies in_subtree(rig.joint_parents@, 0, k) by {
                lemma_all_in_root_subtree(rig.joint_parents@, k);
            }
        }
    }

    Ok(
        SkeletalMesh {
            mesh,
            rig,
            joint_local_transforms,
            joint_transforms,
            inverse_bind_matrices,
        },
    )
}

} // verus!
