//! The animation composer: owns playback time and the layer list.

use vstd::prelude::*;

verus! {

use crate::anim::layer::SkeletalLayer;
use crate::anim::skeletal::{sample_bear, sample_bear_spec};
use crate::fx::{Fx, fx_add, fx_addv, fx_clamp, fx_clampv, fx_rem, fx_remv};
use crate::matrix::Mat4;
use crate::model::{SkeletalMesh, skeletal_mesh_wf};

/// Runtime owner of the accumulated playback time and the animation
/// layers.  Time grows monotonically in `update`; wraparound and clamping
/// are deferred to sampling.
pub struct SkeletalComposer {
    pub global_playback_speed: Fx,
    pub layers: Vec<SkeletalLayer>,
    /// Accumulated playback time.  Mutated only through `update`.
    pub time: Fx,
}

/// The playback time the first layer is sampled at: the accumulated time
/// wrapped by the animation's length for a looping layer, clamped into the
/// animation's time bounds otherwise.
pub open spec fn composer_sample_time_spec(c: SkeletalComposer) -> Fx {
    let layer = c.layers@[0];
    if layer.config.loopanim {
        fx_remv(c.time, layer.anim.max_time)
    } else {
        fx_clampv(c.time, layer.anim.min_time, layer.anim.max_time)
    }
}

impl SkeletalComposer {
    pub fn new(global_playback_speed: Fx, layers: Vec<SkeletalLayer>) -> (r: SkeletalComposer)
        ensures
            r.global_playback_speed == global_playback_speed,
            r.layers == layers,
            r.time.bits == 0,
    {
        SkeletalComposer { global_playback_speed, layers, time: Fx { bits: 0 } }
    }

    /// Accumulate elapsed time monotonically; no clamping and no
    /// wraparound happen here.
    pub fn update(&mut self, delta_time: Fx)
        ensures
            final(self).time == fx_addv(old(self).time, delta_time),
            final(self).global_playback_speed == old(self).global_playback_speed,
            final(self).layers == old(self).layers,
    {
        self.time = fx_add(self.time, delta_time);
    }

    /// Produce the entity's skinning matrices from the first layer at the
    /// current playback time (wrapped or clamped per the layer's loop
    /// flag).
    pub fn sample(&self, entity: &SkeletalMesh) -> (r: Vec<Mat4>)
        requires
            self.layers.len() >= 1,
            skeletal_mesh_wf(*entity),
            self.layers@[0].anim.joints.len() <= entity.rig.joint_count,
        ensures
            r.len() == entity.rig.joint_count,
            forall|j: int|
                0 <= j < entity.rig.joint_count ==> r@[j] == sample_bear_spec(
                    *entity,
                    self.layers@[0].anim,
                    composer_sample_time_spec(*self),
                    j,
                ),
    {
        let layer = &self.layers[0];
        let t = if layer.config.loopanim {
            fx_rem(self.time, layer.anim.max_time)
        } else {
            fx_clamp(self.time, layer.anim.min_time, layer.anim.max_time)
        };
        sample_bear(entity, &layer.anim, t)
    }
}

} // verus!
