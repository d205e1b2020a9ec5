//! Keyframe bracket search and selection, including the boundary policy.

use skelanim::fx::{fx_from_int, Fx};
use skelanim::gltf::skeletal::{search_keyframe_indices, select_keyframes};
use skelanim::linear::{fx3_new, fx3_zero, Fx3};

fn seconds(s: i64) -> Fx {
    fx_from_int(s)
}

#[test]
fn test_search_keyframes() {
    let test1_kf = vec![seconds(0), seconds(1), seconds(2), seconds(3)];
    let (test1_left, test1_right) = search_keyframe_indices(Fx { bits: 98304 }, &test1_kf);
    assert_eq!(Some(1), test1_left);
    assert_eq!(Some(2), test1_right);
}

#[test]
fn bracket_search_on_grid_times() {
    let kf = vec![seconds(0), seconds(1), seconds(2), seconds(3)];
    // strictly-less / strictly-greater comparisons
    let (l, r) = search_keyframe_indices(seconds(1), &kf);
    assert_eq!(Some(0), l);
    assert_eq!(Some(2), r);
    // before all keyframes
    let (l, r) = search_keyframe_indices(Fx { bits: -1 }, &kf);
    assert_eq!(None, l);
    assert_eq!(Some(0), r);
    // after all keyframes
    let (l, r) = search_keyframe_indices(seconds(9), &kf);
    assert_eq!(Some(3), l);
    assert_eq!(None, r);
}

#[test]
fn identity_fallback_before_first_keyframe() {
    // a channel whose first keyframe sits at time 2.0, queried at 0.5:
    // left resolves to the identity at time 0, right to the first keyframe
    let times = vec![seconds(2)];
    let values = vec![fx3_new(Fx { bits: 7 }, Fx { bits: 8 }, Fx { bits: 9 })];
    let identity = fx3_zero();
    let ((lt, lv), (rt, rv)) = select_keyframes::<Fx3>(
        Fx { bits: 32768 },
        &times,
        &values,
        &identity,
    );
    assert_eq!(lt.bits, 0);
    assert_eq!(*lv, identity);
    assert_eq!(rt, seconds(2));
    assert_eq!(*rv, values[0]);
}

#[test]
fn hold_last_fallback_past_last_keyframe() {
    // a channel whose last keyframe sits at time 5.0, queried at 6.0:
    // right resolves to left, with the same value and the same time
    let times = vec![seconds(5)];
    let values = vec![fx3_new(Fx { bits: 1 }, Fx { bits: 2 }, Fx { bits: 3 })];
    let identity = fx3_zero();
    let ((lt, lv), (rt, rv)) = select_keyframes::<Fx3>(seconds(6), &times, &values, &identity);
    assert_eq!(lt, seconds(5));
    assert_eq!(*lv, values[0]);
    assert_eq!(rt, lt);
    assert_eq!(*rv, *lv);
}
