//! Import-time error taxonomy.  Every listed condition aborts the load of
//! that asset; runtime sampling never fails.

use vstd::prelude::*;

verus! {

/// Why an asset import was rejected.
#[derive(Clone, Copy, Debug, PartialEq, Eq, Structural)]
pub enum ImportError {
    /// No skinned node exists in the source file.
    MissingSkin,
    /// The skeleton root node carries a non-uniform scale.
    NonUniformRigScale,
    /// More than one animation clip in one source file.
    UnsupportedMultiAnimation,
    /// The source file carries no animation clip at all.
    MissingAnimation,
    /// Wrong accessor type / component-type combination for a given
    /// semantic attribute.
    UnsupportedAccessorShape,
    /// A sampler's input and output keyframe counts differ.
    SamplerCountMismatch,
    /// A sampler input accessor lacks declared min/max time bounds.
    MissingTimeBounds,
    /// Underlying storage could not be read: a truncated or undecodable
    /// binary buffer, or an out-of-range buffer reference.
    AssetReadFailure,
    /// The node graph is not a tree rooted as the skin declares (a cycle,
    /// a repeated node, an out-of-range node index, or a node transform of
    /// the wrong arity), or an animation channel targets no known joint.
    MalformedNodeGraph,
}

pub open spec fn describe_spec(e: ImportError) -> Seq<char> {
    match e {
        ImportError::MissingSkin => "no skinned node in the source file"@,
        ImportError::NonUniformRigScale => "non-uniform rig scale"@,
        ImportError::UnsupportedMultiAnimation => "multiple animations not yet supported"@,
        ImportError::MissingAnimation => "no animations"@,
        ImportError::UnsupportedAccessorShape => "unsupported accessor shape"@,
        ImportError::SamplerCountMismatch => "sampler input/output count mismatch"@,
        ImportError::MissingTimeBounds => "sampler input missing min|max bounds"@,
        ImportError::AssetReadFailure => "asset data could not be read"@,
        ImportError::MalformedNodeGraph => "malformed node hierarchy"@,
    }
}

impl ImportError {
    /// A human-readable message for logs and diagnostics.
    pub fn describe(&self) -> (r: String)
        ensures
            r@ == describe_spec(*self),
    {
        match self {
            ImportError::MissingSkin => "no skinned node in the source file".to_owned(),
            ImportError::NonUniformRigScale => "non-uniform rig scale".to_owned(),
            ImportError::UnsupportedMultiAnimation => {
                "multiple animations not yet supported".to_owned()
            },
            ImportError::MissingAnimation => "no animations".to_owned(),
            ImportError::UnsupportedAccessorShape => "unsupported accessor shape".to_owned(),
            ImportError::SamplerCountMismatch => {
                "sampler input/output count mismatch".to_owned()
            },
            ImportError::MissingTimeBounds => "sampler input missing min|max bounds".to_owned(),
            ImportError::AssetReadFailure => "asset data could not be read".to_owned(),
            ImportError::MalformedNodeGraph => "malformed node hierarchy".to_owned(),
        }
    }
}

} // verus!
