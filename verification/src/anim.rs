//! Runtime animation: dense assets, the pose sampler and the composer.

pub mod composer;
pub mod layer;
pub mod skeletal;
