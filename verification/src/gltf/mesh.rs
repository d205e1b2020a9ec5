//! Mesh attribute loading from accessors.
//!
//! Accepted accessor shapes, per semantic attribute: SCALAR/unsigned-short
//! for mesh indices, VEC3/float for positions, VEC2/float for texture
//! coordinates, VEC4/unsigned-byte-or-unsigned-short for joint indices and
//! VEC4/float for joint weights.  Anything else is an
//! `UnsupportedAccessorShape`.

use vstd::prelude::*;

verus! {

use crate::errors::ImportError;
use crate::fx::Fx;
use crate::gltf::{GltfFile, le16_spec, read_fx_at, read_fx_spec, read_u16_at};
use crate::linear::{Fx2, Fx3, Fx4, Int4};
use crate::model::{Mesh, VertexAttribs};
use crate::gltf::skeletal::vec3_read_spec;

/// The attribute streams the loader accumulates.
pub struct VertexDataView {
    pub position: Seq<Fx3>,
    pub uv0: Seq<Fx2>,
    pub joint_indices: Seq<Int4>,
    pub joint_weights: Seq<Fx4>,
}

pub open spec fn empty_vertex_data() -> VertexDataView {
    VertexDataView {
        position: Seq::empty(),
        uv0: Seq::empty(),
        joint_indices: Seq::empty(),
        joint_weights: Seq::empty(),
    }
}

/// Two-component binary32 values (texture coordinates).
pub open spec fn vec2_read_spec(buf: Seq<u8>, base: int, n: int) -> Seq<Fx2> {
    Seq::new(
        n as nat,
        |k: int|
            Fx2 { x: read_fx_spec(buf, base + 8 * k), y: read_fx_spec(buf, base + 8 * k + 4) },
    )
}

/// Four-component binary32 values (joint weights).
pub open spec fn fx4_read_spec(buf: Seq<u8>, base: int, n: int) -> Seq<Fx4> {
    Seq::new(
        n as nat,
        |k: int|
            Fx4 {
                x: read_fx_spec(buf, base + 16 * k),
                y: read_fx_spec(buf, base + 16 * k + 4),
                z: read_fx_spec(buf, base + 16 * k + 8),
                w: read_fx_spec(buf, base + 16 * k + 12),
            },
    )
}

/// Joint indices stored as unsigned bytes.
pub open spec fn int4_u8_read_spec(buf: Seq<u8>, base: int, n: int) -> Seq<Int4> {
    Seq::new(
        n as nat,
        |k: int|
            Int4 {
                x: buf[base + 4 * k] as i32,
                y: buf[base + 4 * k + 1] as i32,
                z: buf[base + 4 * k + 2] as i32,
                w: buf[base + 4 * k + 3] as i32,
            },
    )
}

/// Joint indices stored as little-endian unsigned shorts.
pub open spec fn int4_u16_read_spec(buf: Seq<u8>, base: int, n: int) -> Seq<Int4> {
    Seq::new(
        n as nat,
        |k: int|
            Int4 {
                x: le16_spec(buf, base + 8 * k) as i32,
                y: le16_spec(buf, base + 8 * k + 2) as i32,
                z: le16_spec(buf, base + 8 * k + 4) as i32,
                w: le16_spec(buf, base + 8 * k + 6) as i32,
            },
    )
}

/// Mesh indices stored as little-endian unsigned shorts.
pub open spec fn u16_read_spec(buf: Seq<u8>, base: int, n: int) -> Seq<u16> {
    Seq::new(n as nat, |k: int| le16_spec(buf, base + 2 * k) as u16)
}

/// Locate an accessor's decoded buffer and check that `n` elements of
/// `stride` bytes fit: the byte base on success.
pub open spec fn accessor_base_spec(file: GltfFile, ai: int, stride: int) -> Result<
    int,
    ImportError,
> {
    let acc = file.accessors[ai];
    if acc.count < 0 {
        Err(ImportError::UnsupportedAccessorShape)
    } else if acc.buffer_view >= file.buffer_views.len() {
        Err(ImportError::AssetReadFailure)
    } else {
        let bv = file.buffer_views[acc.buffer_view as int];
        if bv.buffer >= file.decoded_buffers.len() {
            Err(ImportError::AssetReadFailure)
        } else if bv.byte_offset + stride * acc.count > file.decoded_buffers[bv.buffer as int].len() {
            Err(ImportError::AssetReadFailure)
        } else {
            Ok(bv.byte_offset as int)
        }
    }
}

/// The decoded buffer an accessor reads from (meaningful when
/// `accessor_base_spec` succeeds).
pub open spec fn accessor_buf_spec(file: GltfFile, ai: int) -> Seq<u8> {
    file.decoded_buffers[file.buffer_views[file.accessors[ai].buffer_view as int].buffer as int]@
}

/// What loading one named attribute appends to the streams: positions as
/// VEC3/float, texture coordinates as VEC2/float, joint indices as
/// VEC4/unsigned-byte-or-short, joint weights as VEC4/float; an unknown
/// semantic contributes nothing.
pub open spec fn attr_step(file: GltfFile, st: VertexDataView, key: Seq<char>, ai: int) -> Result<
    VertexDataView,
    ImportError,
> {
    if key == "POSITION"@ {
        if ai >= file.accessors.len() {
            Err(ImportError::AssetReadFailure)
        } else {
            let acc = file.accessors[ai];
            if acc.accessor_type@ != "VEC3"@ || acc.component_type != 5126 {
                Err(ImportError::UnsupportedAccessorShape)
            } else {
                match accessor_base_spec(file, ai, 12) {
                    Err(e) => Err(e),
                    Ok(base) => Ok(
                        VertexDataView {
                            position: st.position + vec3_read_spec(
                                accessor_buf_spec(file, ai),
                                base,
                                acc.count as int,
                            ),
                            ..st
                        },
                    ),
                }
            }
        }
    } else if key == "TEXCOORD_0"@ {
        if ai >= file.accessors.len() {
            Err(ImportError::AssetReadFailure)
        } else {
            let acc = file.accessors[ai];
            if acc.accessor_type@ != "VEC2"@ || acc.component_type != 5126 {
                Err(ImportError::UnsupportedAccessorShape)
            } else {
                match accessor_base_spec(file, ai, 8) {
                    Err(e) => Err(e),
                    Ok(base) => Ok(
                        VertexDataView {
                            uv0: st.uv0 + vec2_read_spec(
                                accessor_buf_spec(file, ai),
                                base,
                                acc.count as int,
                            ),
                            ..st
                        },
                    ),
                }
            }
        }
    } else if key == "JOINTS_0"@ {
        if ai >= file.accessors.len() {
            Err(ImportError::AssetReadFailure)
        } else {
            let acc = file.accessors[ai];
            if acc.accessor_type@ != "VEC4"@ {
                Err(ImportError::UnsupportedAccessorShape)
            } else if acc.component_type == 5121 {
                match accessor_base_spec(file, ai, 4) {
                    Err(e) => Err(e),
                    Ok(base) => Ok(
                        VertexDataView {
                            joint_indices: st.joint_indices + int4_u8_read_spec(
                                accessor_buf_spec(file, ai),
                                base,
                                acc.count as int,
                            ),
                            ..st
                        },
                    ),
                }
            } else if acc.component_type == 5123 {
                match accessor_base_spec(file, ai, 8) {
                    Err(e) => Err(e),
                    Ok(base) => Ok(
                        VertexDataView {
                            joint_indices: st.joint_indices + int4_u16_read_spec(
                                accessor_buf_spec(file, ai),
                                base,
                                acc.count as int,
                            ),
                            ..st
                        },
                    ),
                }
            } else {
                Err(ImportError::UnsupportedAccessorShape)
            }
        }
    } else if key == "WEIGHTS_0"@ {
        if ai >= file.accessors.len() {
            Err(ImportError::AssetReadFailure)
        } else {
            let acc = file.accessors[ai];
            if acc.accessor_type@ != "VEC4"@ {
                Err(ImportError::UnsupportedAccessorShape)
            } else if acc.component_type == 5126 {
                match accessor_base_spec(file, ai, 16) {
                    Err(e) => Err(e),
                    Ok(base) => Ok(
                        VertexDataView {
                            joint_weights: st.joint_weights + fx4_read_spec(
                                accessor_buf_spec(file, ai),
                                base,
                                acc.count as int,
                            ),
                            ..st
                        },
                    ),
                }
            } else {
                // normalized-integer weight encodings are unsupported
                Err(ImportError::UnsupportedAccessorShape)
            }
        }
    } else {
        Ok(st)
    }
}

/// The attribute streams after walking the first `upto` attribute pairs of
/// the first primitive, or the first error raised.
pub open spec fn attrs_fold(file: GltfFile, attrs: Seq<(String, usize)>, upto: int) -> Result<
    VertexDataView,
    ImportError,
>
    decreases upto,
{
    if upto <= 0 {
        Ok(empty_vertex_data())
    } else {
        match attrs_fold(file, attrs, upto - 1) {
            Err(e) => Err(e),
            Ok(st) => attr_step(file, st, attrs[upto - 1].0@, attrs[upto - 1].1 as int),
        }
    }
}

proof fn lemma_attrs_err_persists(file: GltfFile, attrs: Seq<(String, usize)>, i: int, n: int)
    requires
        0 <= i <= n,
        attrs_fold(file, attrs, i) is Err,
    ensures
        attrs_fold(file, attrs, n) == attrs_fold(file, attrs, i),
    decreases n - i,
{
    if i < n {
        lemma_attrs_err_persists(file, attrs, i + 1, n);
    }
}

/// The mesh index array of the first primitive: SCALAR/unsigned-short, or
/// empty where the primitive declares none.
pub open spec fn mesh_indices_spec(file: GltfFile, prim_indices: Option<usize>) -> Result<
    Seq<u16>,
    ImportError,
> {
    match prim_indices {
        None => Ok(Seq::empty()),
        Some(ai) => {
            if ai >= file.accessors.len() {
                Err(ImportError::AssetReadFailure)
            } else {
                let acc = file.accessors[ai as int];
                if acc.accessor_type@ != "SCALAR"@ || acc.component_type != 5123 {
                    Err(ImportError::UnsupportedAccessorShape)
                } else {
                    match accessor_base_spec(file, ai as int, 2) {
                        Err(e) => Err(e),
                        Ok(base) => Ok(
                            u16_read_spec(
                                accessor_buf_spec(file, ai as int),
                                base,
                                acc.count as int,
                            ),
                        ),
                    }
                }
            }
        },
    }
}

/// Validate an accessor and return its byte base and element count.
fn accessor_base(file: &GltfFile, ai: usize, stride: usize) -> (r: Result<
    (usize, usize),
    ImportError,
>)
    requires
        ai < file.accessors.len(),
        1 <= stride <= 16,
    ensures
        r is Ok <==> accessor_base_spec(*file, ai as int, stride as int) is Ok,
        r is Err ==> accessor_base_spec(*file, ai as int, stride as int) == Err::<
            int,
            ImportError,
        >(r.unwrap_err()),
        r is Ok ==> {
            let (base, n) = r.unwrap();
            &&& base as int == accessor_base_spec(*file, ai as int, stride as int).unwrap()
            &&& n as int == file.accessors[ai as int].count as int
            &&& file.accessors[ai as int].buffer_view < file.buffer_views.len()
            &&& file.buffer_views[file.accessors[ai as int].buffer_view as int].buffer
                < file.decoded_buffers.len()
            &&& base + stride * n <= file.decoded_buffers[file.buffer_views[file.accessors[ai as int].buffer_view as int].buffer as int].len()
        },
{
    let acc = &file.accessors[ai];
    if acc.count < 0 {
        return Err(ImportError::UnsupportedAccessorShape);
    }
    if acc.buffer_view >= file.buffer_views.len() {
        return Err(ImportError::AssetReadFailure);
    }
    let bv = &file.buffer_views[acc.buffer_view];
    if bv.buffer >= file.decoded_buffers.len() {
        return Err(ImportError::AssetReadFailure);
    }
    let buf = &file.decoded_buffers[bv.buffer];
    proof {
        assert(0 <= (stride as int) * (acc.count as int) <= 16 * 0x8000_0000_0000_0000int)
            by (nonlinear_arith)
            requires
                1 <= (stride as int) <= 16,
                0 <= (acc.count as int) <= 0x8000_0000_0000_0000int,
        ;
    }
    if (bv.byte_offset as u128) + (stride as u128) * (acc.count as u128) > (buf.len() as u128) {
        return Err(ImportError::AssetReadFailure);
    }
    proof {
        assert((acc.count as int) <= (stride as int) * (acc.count as int)) by (nonlinear_arith)
            requires
                1 <= (stride as int),
                0 <= (acc.count as int),
        ;
    }
    Ok((bv.byte_offset, acc.count as usize))
}

/// Load the first primitive of the first mesh: its index array and its
/// vertex attribute streams, walked in declaration order.
pub fn load_mesh(name: &str, file: &GltfFile) -> (r: Result<Mesh, ImportError>)
    ensures
        (file.meshes is None || file.meshes.unwrap().len() == 0
            || file.meshes.unwrap()[0].primitives.len() == 0) ==> r == Err::<Mesh, ImportError>(
            ImportError::MalformedNodeGraph,
        ),
        (file.meshes is Some && file.meshes.unwrap().len() > 0
            && file.meshes.unwrap()[0].primitives.len() > 0) ==> {
            let prim = file.meshes.unwrap()[0].primitives[0];
            match mesh_indices_spec(*file, prim.indices) {
                Err(e) => r == Err::<Mesh, ImportError>(e),
                Ok(inds) => match attrs_fold(*file, prim.attributes@, prim.attributes.len() as int) {
                    Err(e) => r == Err::<Mesh, ImportError>(e),
                    Ok(st) => {
                        &&& r is Ok
                        &&& r.unwrap().indices@ == inds
                        &&& r.unwrap().attribs.position@ == st.position
                        &&& r.unwrap().attribs.uv0@ == st.uv0
                        &&& r.unwrap().attribs.joint_indices@ == st.joint_indices
                        &&& r.unwrap().attribs.joint_weights@ == st.joint_weights
                        &&& r.unwrap().attribs.normal@ == Seq::<Fx3>::empty()
                        &&& r.unwrap().attribs.tangent@ == Seq::<Fx3>::empty()
                        &&& r.unwrap().attribs.binormal@ == Seq::<Fx3>::empty()
                        &&& r.unwrap().attribs.color@ == Seq::<Fx4>::empty()
                        &&& r.unwrap().attribs.uv1@ == Seq::<Fx2>::empty()
                    },
                },
            }
        },
{
    let _ = name;
    let meshes = match &file.meshes {
        Some(m) => m,
        None => {
            return Err(ImportError::MalformedNodeGraph);
        },
    };
    if meshes.len() == 0 {
        return Err(ImportError::MalformedNodeGraph);
    }
    let mesh = &meshes[0];
    if mesh.primitives.len() == 0 {
        return Err(ImportError::MalformedNodeGraph);
    }
    let mesh_primitive = &mesh.primitives[0];

    // load mesh indices
    let mut indices: Vec<u16> = Vec::new();
    match mesh_primitive.indices {
        None => {},
        Some(ai) => {
            if ai >= file.accessors.len() {
                return Err(ImportError::AssetReadFailure);
            }
            let indices_accessor = &file.accessors[ai];
            let scalar_str: String = "SCALAR".to_owned();
            if !(indices_accessor.accessor_type == scalar_str) || indices_accessor.component_type
                != 5123 {
                return Err(ImportError::UnsupportedAccessorShape);
            }
            let (base, n) = match accessor_base(file, ai, 2) {
                Ok(b) => b,
                Err(e) => {
                    return Err(e);
                },
            };
            let buf = &file.decoded_buffers[file.buffer_views[indices_accessor.buffer_view].buffer];
            let ghost inds_s = u16_read_spec(buf@, base as int, n as int);
            let mut k: usize = 0;
            while k < n
                invariant
                    k <= n,
                    base + 2 * n <= buf.len(),
                    inds_s == u16_read_spec(buf@, base as int, n as int),
                    indices@ == inds_s.subrange(0, k as int),
                decreases n - k,
            {
                indices.push(read_u16_at(buf, base + 2 * k));
                proof {
                    assert(inds_s.subrange(0, k + 1) =~= inds_s.subrange(0, k as int).push(
                        inds_s[k as int],
                    ));
                }
                k = k + 1;
            }
            proof {
                assert(inds_s.subrange(0, n as int) =~= inds_s);
            }
        },
    }

    // load mesh attributes
    let position_str: String = "POSITION".to_owned();
    let texcoord_str: String = "TEXCOORD_0".to_owned();
    let joints_str: String = "JOINTS_0".to_owned();
    let weights_str: String = "WEIGHTS_0".to_owned();
    let vec3_str: String = "VEC3".to_owned();
    let vec2_str: String = "VEC2".to_owned();
    let vec4_str: String = "VEC4".to_owned();

    let mut position: Vec<Fx3> = Vec::new();
    let mut uv0: Vec<Fx2> = Vec::new();
    let mut joint_indices: Vec<Int4> = Vec::new();
    let mut joint_weights: Vec<Fx4> = Vec::new();

    let ghost attrs = mesh_primitive.attributes@;
    let ghost nattrs = mesh_primitive.attributes.len() as int;
    let mut a: usize = 0;
    while a < mesh_primitive.attributes.len()
        invariant
            a <= mesh_primitive.attributes.len(),
            file.meshes is Some,
            file.meshes.unwrap().len() > 0,
            file.meshes.unwrap()[0].primitives.len() > 0,
            *mesh_primitive == file.meshes.unwrap()[0].primitives[0],
            mesh_indices_spec(*file, file.meshes.unwrap()[0].primitives[0].indices) == Ok::<
                Seq<u16>,
                ImportError,
            >(indices@),
            attrs == mesh_primitive.attributes@,
            nattrs == mesh_primitive.attributes.len() as int,
            position_str@ == "POSITION"@,
            texcoord_str@ == "TEXCOORD_0"@,
            joints_str@ == "JOINTS_0"@,
            weights_str@ == "WEIGHTS_0"@,
            vec3_str@ == "VEC3"@,
            vec2_str@ == "VEC2"@,
            vec4_str@ == "VEC4"@,
            attrs_fold(*file, attrs, a as int) == Ok::<VertexDataView, ImportError>(
                VertexDataView {
                    position: position@,
                    uv0: uv0@,
                    joint_indices: joint_indices@,
                    joint_weights: joint_weights@,
                },
            ),
        decreases mesh_primitive.attributes.len() - a,
    {
        let ghost st0 = VertexDataView {
            position: position@,
            uv0: uv0@,
            joint_indices: joint_indices@,
            joint_weights: joint_weights@,
        };
        let attr_key = &mesh_primitive.attributes[a].0;
        let accessor_index = mesh_primitive.attributes[a].1;
        if *attr_key == position_str {
            if accessor_index >= file.accessors.len() {
                proof {
                    lemma_attrs_err_persists(*file, attrs, a as int + 1, nattrs);
                }
                return Err(ImportError::AssetReadFailure);
            }
            let acc = &file.accessors[accessor_index];
            if !(acc.accessor_type == vec3_str) || acc.component_type != 5126 {
                proof {
                    lemma_attrs_err_persists(*file, attrs, a as int + 1, nattrs);
                }
                return Err(ImportError::UnsupportedAccessorShape);
            }
            let (base, n) = match accessor_base(file, accessor_index, 12) {
                Ok(b) => b,
                Err(e) => {
                    proof {
                        lemma_attrs_err_persists(*file, attrs, a as int + 1, nattrs);
                    }
                    return Err(e);
                },
            };
            let buf = &file.decoded_buffers[file.buffer_views[acc.buffer_view].buffer];
            let ghost vals_s = vec3_read_spec(buf@, base as int, n as int);
            let mut k: usize = 0;
            while k < n
                invariant
                    k <= n,
                    base + 12 * n <= buf.len(),
                    vals_s == vec3_read_spec(buf@, base as int, n as int),
                    position@ == st0.position + vals_s.subrange(0, k as int),
                decreases n - k,
            {
                let x = read_fx_at(buf, base + 12 * k);
                let y = read_fx_at(buf, base + 12 * k + 4);
                let z = read_fx_at(buf, base + 12 * k + 8);
                position.push(Fx3 { x, y, z });
                proof {
                    assert(vals_s.subrange(0, k + 1) =~= vals_s.subrange(0, k as int).push(
                        vals_s[k as int],
                    ));
                }
                k = k + 1;
            }
            proof {
                assert(vals_s.subrange(0, n as int) =~= vals_s);
            }
        } else if *attr_key == texcoord_str {
            if accessor_index >= file.accessors.len() {
                proof {
                    lemma_attrs_err_persists(*file, attrs, a as int + 1, nattrs);
                }
                return Err(ImportError::AssetReadFailure);
            }
            let acc = &file.accessors[accessor_index];
            if !(acc.accessor_type == vec2_str) || acc.component_type != 5126 {
                proof {
                    lemma_attrs_err_persists(*file, attrs, a as int + 1, nattrs);
                }
                return Err(ImportError::UnsupportedAccessorShape);
            }
            let (base, n) = match accessor_base(file, accessor_index, 8) {
                Ok(b) => b,
                Err(e) => {
                    proof {
                        lemma_attrs_err_persists(*file, attrs, a as int + 1, nattrs);
                    }
                    return Err(e);
                },
            };
            let buf = &file.decoded_buffers[file.buffer_views[acc.buffer_view].buffer];
            let ghost vals_s = vec2_read_spec(buf@, base as int, n as int);
            let mut k: usize = 0;
            while k < n
                invariant
                    k <= n,
                    base + 8 * n <= buf.len(),
                    vals_s == vec2_read_spec(buf@, base as int, n as int),
                    uv0@ == st0.uv0 + vals_s.subrange(0, k as int),
                decreases n - k,
            {
                let x = read_fx_at(buf, base + 8 * k);
                let y = read_fx_at(buf, base + 8 * k + 4);
                uv0.push(Fx2 { x, y });
                proof {
                    assert(vals_s.subrange(0, k + 1) =~= vals_s.subrange(0, k as int).push(
                        vals_s[k as int],
                    ));
                }
                k = k + 1;
            }
            proof {
                assert(vals_s.subrange(0, n as int) =~= vals_s);
            }
        } else if *attr_key == joints_str {
            if accessor_index >= file.accessors.len() {
                proof {
                    lemma_attrs_err_persists(*file, attrs, a as int + 1, nattrs);
                }
                return Err(ImportError::AssetReadFailure);
            }
            let acc = &file.accessors[accessor_index];
            if !(acc.accessor_type == vec4_str) {
                proof {
                    lemma_attrs_err_persists(*file, attrs, a as int + 1, nattrs);
                }
                return Err(ImportError::UnsupportedAccessorShape);
            }
            if acc.component_type == 5121 {
                let (base, n) = match accessor_base(file, accessor_index, 4) {
                    Ok(b) => b,
                    Err(e) => {
                        proof {
                            lemma_attrs_err_persists(*file, attrs, a as int + 1, nattrs);
                        }
                        return Err(e);
                    },
                };
                let buf = &file.decoded_buffers[file.buffer_views[acc.buffer_view].buffer];
                let ghost vals_s = int4_u8_read_spec(buf@, base as int, n as int);
                let mut k: usize = 0;
                while k < n
                    invariant
                        k <= n,
                        base + 4 * n <= buf.len(),
                        vals_s == int4_u8_read_spec(buf@, base as int, n as int),
                        joint_indices@ == st0.joint_indices + vals_s.subrange(0, k as int),
                    decreases n - k,
                {
                    let b1 = buf[base + 4 * k] as i32;
                    let b2 = buf[base + 4 * k + 1] as i32;
                    let b3 = buf[base + 4 * k + 2] as i32;
                    let b4 = buf[base + 4 * k + 3] as i32;
                    joint_indices.push(Int4 { x: b1, y: b2, z: b3, w: b4 });
                    proof {
                        assert(vals_s.subrange(0, k + 1) =~= vals_s.subrange(0, k as int).push(
                            vals_s[k as int],
                        ));
                    }
                    k = k + 1;
                }
                proof {
                    assert(vals_s.subrange(0, n as int) =~= vals_s);
                }
            } else if acc.component_type == 5123 {
                let (base, n) = match accessor_base(file, accessor_index, 8) {
                    Ok(b) => b,
                    Err(e) => {
                        proof {
                            lemma_attrs_err_persists(*file, attrs, a as int + 1, nattrs);
                        }
                        return Err(e);
                    },
                };
                let buf = &file.decoded_buffers[file.buffer_views[acc.buffer_view].buffer];
                let ghost vals_s = int4_u16_read_spec(buf@, base as int, n as int);
                let mut k: usize = 0;
                while k < n
                    invariant
                        k <= n,
                        base + 8 * n <= buf.len(),
                        vals_s == int4_u16_read_spec(buf@, base as int, n as int),
                        joint_indices@ == st0.joint_indices + vals_s.subrange(0, k as int),
                    decreases n - k,
                {
                    let b1 = read_u16_at(buf, base + 8 * k) as i32;
                    let b2 = read_u16_at(buf, base + 8 * k + 2) as i32;
                    let b3 = read_u16_at(buf, base + 8 * k + 4) as i32;
                    let b4 = read_u16_at(buf, base + 8 * k + 6) as i32;
                    joint_indices.push(Int4 { x: b1, y: b2, z: b3, w: b4 });
                    proof {
                        assert(vals_s.subrange(0, k + 1) =~= vals_s.subrange(0, k as int).push(
                            vals_s[k as int],
                        ));
                    }
                    k = k + 1;
                }
                proof {
                    assert(vals_s.subrange(0, n as int) =~= vals_s);
                }
            } else {
                proof {
                    lemma_attrs_err_persists(*file, attrs, a as int + 1, nattrs);
                }
                return Err(ImportError::UnsupportedAccessorShape);
            }
        } else if *attr_key == weights_str {
            if accessor_index >= file.accessors.len() {
                proof {
                    lemma_attrs_err_persists(*file, attrs, a as int + 1, nattrs);
                }
                return Err(ImportError::AssetReadFailure);
            }
            let acc = &file.accessors[accessor_index];
            if !(acc.accessor_type == vec4_str) {
                proof {
                    lemma_attrs_err_persists(*file, attrs, a as int + 1, nattrs);
                }
                return Err(ImportError::UnsupportedAccessorShape);
            }
            if acc.component_type == 5126 {
                let (base, n) = match accessor_base(file, accessor_index, 16) {
                    Ok(b) => b,
                    Err(e) => {
                        proof {
                            lemma_attrs_err_persists(*file, attrs, a as int + 1, nattrs);
                        }
                        return Err(e);
                    },
                };
                let buf = &file.decoded_buffers[file.buffer_views[acc.buffer_view].buffer];
                let ghost vals_s = fx4_read_spec(buf@, base as int, n as int);
                let mut k: usize = 0;
                while k < n
                    invariant
                        k <= n,
                        base + 16 * n <= buf.len(),
                        vals_s == fx4_read_spec(buf@, base as int, n as int),
                        joint_weights@ == st0.joint_weights + vals_s.subrange(0, k as int),
                    decreases n - k,
                {
                    let x = read_fx_at(buf, base + 16 * k);
                    let y = read_fx_at(buf, base + 16 * k + 4);
                    let z = read_fx_at(buf, base + 16 * k + 8);
                    let w = read_fx_at(buf, base + 16 * k + 12);
                    joint_weights.push(Fx4 { x, y, z, w });
                    proof {
                        assert(vals_s.subrange(0, k + 1) =~= vals_s.subrange(0, k as int).push(
                            vals_s[k as int],
                        ));
                    }
                    k = k + 1;
                }
                proof {
                    assert(vals_s.subrange(0, n as int) =~= vals_s);
                }
            } else {
                // can also be normalized u8 or normalized u16: unsupported
                proof {
                    lemma_attrs_err_persists(*file, attrs, a as int + 1, nattrs);
                }
                return Err(ImportError::UnsupportedAccessorShape);
            }
        }
        a = a + 1;
    }

    Ok(
        Mesh {
            attribs: VertexAttribs {
                position,
                normal: Vec::new(),
                tangent: Vec::new(),
                binormal: Vec::new(),
                color: Vec::new(),
                uv0,
                uv1: Vec::new(),
                joint_indices,
                joint_weights,
            },
            indices,
        },
    )
}

} // verus!
