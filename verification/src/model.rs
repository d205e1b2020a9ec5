//! The data model: meshes, rigs and their well-formedness.

use vstd::prelude::*;

verus! {

use std::collections::HashMap;

use crate::anim::skeletal::TRS;
use crate::linear::{Fx2, Fx3, Fx4, Int4, Quat};
use crate::matrix::Mat4;

/// Upper bound on the number of joints a rig may drive, dictated by the
/// downstream GPU uniform-buffer budget.
pub const MAX_JOINTS: i32 = 64;

/// Per-vertex attribute streams of a loaded mesh, already in canonical rig
/// joint indices.
#[derive(Debug)]
pub struct VertexAttribs {
    pub position: Vec<Fx3>,
    pub normal: Vec<Fx3>,
    pub tangent: Vec<Fx3>,
    pub binormal: Vec<Fx3>,
    pub color: Vec<Fx4>,
    pub uv0: Vec<Fx2>,
    pub uv1: Vec<Fx2>,
    pub joint_indices: Vec<Int4>,
    pub joint_weights: Vec<Fx4>,
}

#[derive(Debug)]
pub struct Mesh {
    pub attribs: VertexAttribs,
    pub indices: Vec<u16>,
}

/// A skinned mesh: geometry plus rig, bind transforms and precomputed
/// inverse-bind matrices, constructed once at asset load and read-only
/// afterwards.
#[derive(Debug)]
pub struct SkeletalMesh {
    pub mesh: Mesh,
    pub rig: Rig,
    pub joint_transforms: Vec<TRS>,
    pub joint_local_transforms: Vec<Mat4>,
    pub inverse_bind_matrices: Vec<Mat4>,
}

/// Skeletal rig: an arena of joints with parent/child indices, immutable
/// after construction.
#[derive(Debug)]
pub struct Rig {
    /// flat joints array
    pub joint_transforms: Vec<Joint>,
    /// num joints
    pub joint_count: usize,
    /// flat joint names array
    pub joint_names: Vec<String>,
    /// flat joint child joint indices array
    pub joint_children: Vec<Vec<usize>>,
    /// flat joint parent indices array
    pub joint_parents: Vec<usize>,
    /// source bone remap table
    pub remap_table: RigRemapTable,
}

/// One joint of the rig, with its canonical index, its parent's canonical
/// index (the root points at itself) and its bind-pose TRS.
#[derive(Copy, Clone, Debug, PartialEq, Eq, Structural)]
pub struct Joint {
    /// joint index in rig joints array
    pub index: usize,
    /// parent joint index in rig joints array (zero for root joint)
    pub parent_index: usize,
    pub translation: Fx3,
    pub rotation: Quat,
    pub scale: Fx3,
}

/// Mapping from source-file joint index to canonical rig joint index.
#[derive(Debug)]
pub struct RigRemapTable {
    pub joints: HashMap<usize, usize>,
}

/// Joint `c` appears in its parent's child list.
pub open spec fn joint_in_parents_children(rig: Rig, c: int) -> bool {
    exists|i: int|
        0 <= i < rig.joint_children@[rig.joint_parents@[c] as int].len() && (#[trigger]
        rig.joint_children@[rig.joint_parents@[c] as int]@[i]) == c
}

/// Well-formedness of a rig.  The crucial ordering invariant: the root has
/// canonical index 0 and is its own parent, and every other joint's parent
/// has a strictly smaller canonical index, so a single ascending pass
/// composes parents before children.
pub open spec fn rig_wf(rig: Rig) -> bool {
    &&& rig.joint_transforms.len() == rig.joint_count
    &&& rig.joint_names.len() == rig.joint_count
    &&& rig.joint_children.len() == rig.joint_count
    &&& rig.joint_parents.len() == rig.joint_count
    &&& rig.joint_count > 0 ==> rig.joint_parents@[0] == 0
    &&& forall|j: int|
        1 <= j < rig.joint_count ==> (#[trigger] rig.joint_parents@[j]) < j
    &&& forall|j: int|
        0 <= j < rig.joint_count ==> ((#[trigger] rig.joint_transforms@[j]).index == j
            && rig.joint_transforms@[j].parent_index == rig.joint_parents@[j])
    &&& forall|p: int, i: int|
        0 <= p < rig.joint_count && 0 <= i < rig.joint_children@[p].len() ==> {
            let c = (#[trigger] rig.joint_children@[p]@[i]) as int;
            p < c < rig.joint_count && rig.joint_parents@[c] == p
        }
    &&& forall|p: int, i: int, i2: int|
        0 <= p < rig.joint_count && 0 <= i < i2 < rig.joint_children@[p].len()
            ==> (#[trigger] rig.joint_children@[p]@[i]) < (#[trigger] rig.joint_children@[p]@[i2])
    &&& forall|c: int|
        1 <= c < rig.joint_count ==> #[trigger] joint_in_parents_children(rig, c)
}

/// Well-formedness of a skinned mesh: the rig is well formed and every
/// per-joint array covers exactly the rig's joints.
pub open spec fn skeletal_mesh_wf(m: SkeletalMesh) -> bool {
    &&& rig_wf(m.rig)
    &&& m.joint_transforms.len() == m.rig.joint_count
    &&& m.joint_local_transforms.len() == m.rig.joint_count
    &&& m.inverse_bind_matrices.len() == m.rig.joint_count
}

} // verus!
