//! Skeletal-animation evaluation engine.
//!
//! Given a rig (joint hierarchy), a sparsely keyframed animation imported
//! from an interchange scene file, and a playback time, this library
//! produces a dense per-frame pose: a flat array of joint matrices ready
//! for GPU skinning.
//!
//! All scalar arithmetic is performed in a deterministic Q47.16 fixed-point
//! representation ([`fx::Fx`]), so every result is bit-reproducible and every
//! function is total: out-of-range intermediate values saturate instead of
//! wrapping or trapping.

pub mod anim;
pub mod errors;
pub mod fx;
pub mod gltf;
pub mod linear;
pub mod matrix;
pub mod model;
