//! Animation layers: one dense animation plus its playback knobs.

use vstd::prelude::*;

verus! {

use crate::anim::skeletal::SkeletalAnimation;
use crate::fx::Fx;

/// One layer of a composer: a dense animation and how to play it back.
pub struct SkeletalLayer {
    pub config: SkeletalLayerSpec,
    pub anim: SkeletalAnimation,
}

/// Playback knobs of a layer.  A looping layer wraps its sample time by the
/// animation's length; a non-looping layer clamps it into the animation's
/// time bounds.  `playback_speed` is stored but not yet applied.
pub struct SkeletalLayerSpec {
    pub loopanim: bool,
    pub playback_speed: Fx,
}

} // verus!
