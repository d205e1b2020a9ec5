//! The interchange scene-graph data model: raw nodes, accessors and
//! buffers as the deserializer supplies them, plus the verified buffer
//! decoding and cursor primitives the importer reads through.
//!
//! Parsing the JSON text into these records is the deserializer's job and
//! stays outside the library; every value here is already plain data.

pub mod mesh;
pub mod skeletal;

use vstd::prelude::*;

verus! {

use crate::errors::ImportError;
use crate::fx::{Fx, fx_from_f32_bits, fx_from_f32_bits_spec};
use crate::linear::{Fx3, Quat};
use crate::matrix::{Mat4, mat4_trs, mat4_trs_spec};

/// A parsed interchange scene file with its binary buffers decoded.
pub struct GltfFile {
    pub meshes: Option<Vec<GltfMesh>>,
    pub buffer_views: Vec<GltfBufferView>,
    pub buffers: Vec<GltfBuffer>,
    pub accessors: Vec<GltfAccessor>,
    pub scenes: Vec<GltfScene>,
    pub nodes: Vec<GltfNode>,
    pub skins: Option<Vec<GltfSkin>>,
    pub animations: Option<Vec<GltfAnimation>>,
    /// decoded uri buffers (derived from `buffers`, not part of the file)
    pub decoded_buffers: Vec<Vec<u8>>,
}

pub struct GltfScene {
    pub name: Option<String>,
    pub root_nodes: Option<Vec<usize>>,
}

pub struct GltfNode {
    pub name: String,
    pub children: Option<Vec<usize>>,
    pub translation: Option<Vec<Fx>>,
    pub rotation: Option<Vec<Fx>>,
    pub scale: Option<Vec<Fx>>,
    pub matrix: Option<Vec<Fx>>,
    pub skin: Option<usize>,
}

pub struct GltfSkin {
    pub name: String,
    pub inverse_bind_matrices: usize,
    pub joints: Vec<usize>,
    pub skeleton: Option<usize>,
}

pub struct GltfMesh {
    pub name: String,
    pub primitives: Vec<GltfMeshPrimitive>,
}

/// One mesh primitive.  Attributes are kept as ordered (semantic, accessor)
/// pairs so that loading walks them deterministically.
pub struct GltfMeshPrimitive {
    pub attributes: Vec<(String, usize)>,
    pub indices: Option<usize>,
    pub material: Option<usize>,
    pub mode: Option<i64>,
}

pub struct GltfBufferView {
    pub buffer: usize,
    pub byte_length: usize,
    pub byte_offset: usize,
}

pub struct GltfBuffer {
    pub byte_length: usize,
    pub uri: String,
}

pub struct GltfAccessor {
    pub buffer_view: usize,
    pub component_type: i64,
    pub accessor_type: String,
    pub count: i64,
    pub min: Option<Vec<Fx>>,
    pub max: Option<Vec<Fx>>,
}

pub struct GltfAnimation {
    pub name: String,
    pub channels: Vec<GltfAnimationChannel>,
    pub samplers: Vec<GltfAnimationSampler>,
}

pub struct GltfAnimationChannel {
    pub sampler: usize,
    pub target: GltfAnimationChannelTarget,
}

pub struct GltfAnimationSampler {
    pub input: usize,
    pub interpolation: String,
    pub output: usize,
}

pub struct GltfAnimationChannelTarget {
    pub node: usize,
    pub path: String,
}

/// Accessor component types, by their interchange-format codes.
pub enum GltfComponentType {
    Byte,
    UnsignedByte,
    Short,
    UnsignedShort,
    UnsignedInt,
    Float,
}

pub open spec fn component_code_spec(c: GltfComponentType) -> int {
    match c {
        GltfComponentType::Byte => 5120,
        GltfComponentType::UnsignedByte => 5121,
        GltfComponentType::Short => 5122,
        GltfComponentType::UnsignedShort => 5123,
        GltfComponentType::UnsignedInt => 5125,
        GltfComponentType::Float => 5126,
    }
}

impl GltfComponentType {
    /// The numeric code the interchange format stores for this component
    /// type.
    pub fn code(&self) -> (c: i64)
        ensures
            c as int == component_code_spec(*self),
    {
        match self {
            GltfComponentType::Byte => 5120,
            GltfComponentType::UnsignedByte => 5121,
            GltfComponentType::Short => 5122,
            GltfComponentType::UnsignedShort => 5123,
            GltfComponentType::UnsignedInt => 5125,
            GltfComponentType::Float => 5126,
        }
    }
}

/// The scheme-and-encoding prefix a buffer URI must carry for its payload
/// to be embedded base64 data.
pub open spec fn data_uri_prefix() -> Seq<char> {
    "data:application/octet-stream;base64,"@
}

/// What the base64 decoder yields on a given text, or nothing where the
/// text is not valid padded base64.
pub uninterp spec fn base64_decoded(s: Seq<char>) -> Option<Seq<u8>>;

/// Relies on str::strip_prefix: yields the remainder exactly when the
/// string starts with the (ASCII) data-URI prefix.
#[verifier::external_body]
fn strip_data_prefix(s: &str) -> (r: Option<&str>)
    ensures
        r is Some <==> (s@.len() >= 37 && s@.subrange(0, 37) == data_uri_prefix()),
        r is Some ==> r.unwrap()@ == s@.skip(37),
{
    s.strip_prefix("data:application/octet-stream;base64,")
}

/// Relies on base64::decode: the standard alphabet with padding; the
/// decoded bytes, or nothing where the text is rejected.  The result
/// depends on the text alone.
#[verifier::external_body]
fn base64_decode_text(s: &str) -> (r: Option<Vec<u8>>)
    ensures
        r is Some <==> base64_decoded(s@) is Some,
        r is Some ==> r.unwrap()@ == base64_decoded(s@).unwrap(),
{
    match base64::decode(s) {
        Ok(v) => Some(v),
        Err(_) => None,
    }
}

/// Whether a buffer URI carries decodable embedded data.
pub open spec fn buffer_uri_decodable(uri: Seq<char>) -> bool {
    &&& uri.len() >= 37
    &&& uri.subrange(0, 37) == data_uri_prefix()
    &&& base64_decoded(uri.skip(37)) is Some
}

/// The payload of a decodable buffer URI.
pub open spec fn buffer_uri_payload(uri: Seq<char>) -> Seq<u8> {
    base64_decoded(uri.skip(37)).unwrap()
}

/// Decode one buffer's embedded base64 payload.  Anything but a decodable
/// data URI aborts the import: external buffer files are not supported.
pub fn decode_buffer_uri(uri: &str) -> (r: Result<Vec<u8>, ImportError>)
    ensures
        r is Ok <==> buffer_uri_decodable(uri@),
        r is Ok ==> r.unwrap()@ == buffer_uri_payload(uri@),
        r is Err ==> r.unwrap_err() == ImportError::AssetReadFailure,
{
    match strip_data_prefix(uri) {
        None => Err(ImportError::AssetReadFailure),
        Some(rest) => match base64_decode_text(rest) {
            None => Err(ImportError::AssetReadFailure),
            Some(v) => Ok(v),
        },
    }
}

/// Decode every buffer of a file, in order.  The first buffer that is not
/// a decodable data URI aborts the load.
pub fn decode_buffers(buffers: &Vec<GltfBuffer>) -> (r: Result<Vec<Vec<u8>>, ImportError>)
    ensures
        r is Ok <==> (forall|i: int|
            0 <= i < buffers.len() ==> buffer_uri_decodable(
                (#[trigger] buffers@[i]).uri@,
            )),
        r is Ok ==> {
            &&& r.unwrap().len() == buffers.len()
            &&& forall|i: int|
                0 <= i < buffers.len() ==> (#[trigger] r.unwrap()@[i])@ == buffer_uri_payload(
                    buffers@[i].uri@,
                )
        },
        r is Err ==> r.unwrap_err() == ImportError::AssetReadFailure,
{
    let mut out: Vec<Vec<u8>> = Vec::new();
    let mut i: usize = 0;
    while i < buffers.len()
        invariant
            i <= buffers.len(),
            out.len() == i,
            forall|k: int| 0 <= k < i ==> buffer_uri_decodable((#[trigger] buffers@[k]).uri@),
            forall|k: int|
                0 <= k < i ==> (#[trigger] out@[k])@ == buffer_uri_payload(buffers@[k].uri@),
        decreases buffers.len() - i,
    {
        let decoded = decode_buffer_uri(buffers[i].uri.as_str());
        match decoded {
            Ok(v) => {
                out.push(v);
            },
            Err(e) => {
                return Err(e);
            },
        }
        i = i + 1;
    }
    Ok(out)
}

/// A read position inside one decoded buffer.
#[derive(Clone, Copy, Debug, PartialEq, Eq, Structural)]
pub struct BufferCursor {
    /// which decoded buffer the cursor reads
    pub buffer: usize,
    /// next byte to read
    pub pos: usize,
}

/// Compute a cursor into the decoded buffer a buffer view names,
/// positioned at the view's byte offset.
pub fn get_buffer_cursor(file: &GltfFile, buffer_view: &GltfBufferView) -> (r: Result<
    BufferCursor,
    ImportError,
>)
    ensures
        r is Ok <==> buffer_view.buffer < file.decoded_buffers.len(),
        r is Ok ==> r.unwrap() == (BufferCursor {
            buffer: buffer_view.buffer,
            pos: buffer_view.byte_offset,
        }),
        r is Err ==> r.unwrap_err() == ImportError::AssetReadFailure,
{
    if buffer_view.buffer < file.decoded_buffers.len() {
        Ok(BufferCursor { buffer: buffer_view.buffer, pos: buffer_view.byte_offset })
    } else {
        Err(ImportError::AssetReadFailure)
    }
}

/// One little-endian 16-bit integer at `pos`.
pub open spec fn le16_spec(buf: Seq<u8>, pos: int) -> int {
    buf[pos] + 0x100 * buf[pos + 1]
}

/// One little-endian 32-bit integer at `pos`.
pub open spec fn le32_spec(buf: Seq<u8>, pos: int) -> int {
    buf[pos] + 0x100 * buf[pos + 1] + 0x1_0000 * buf[pos + 2] + 0x100_0000 * buf[pos + 3]
}

/// Read one byte, advancing the cursor; a truncated buffer is an
/// `AssetReadFailure`.
pub fn read_u8(buf: &Vec<u8>, cursor: &mut BufferCursor) -> (r: Result<u8, ImportError>)
    ensures
        r is Ok <==> old(cursor).pos + 1 <= buf.len(),
        r is Ok ==> r.unwrap() == buf@[old(cursor).pos as int] && *final(cursor)
            == (BufferCursor { pos: (old(cursor).pos + 1) as usize, ..*old(cursor) }),
        r is Err ==> *final(cursor) == *old(cursor) && r.unwrap_err()
            == ImportError::AssetReadFailure,
{
    if cursor.pos < buf.len() {
        let b = buf[cursor.pos];
        cursor.pos = cursor.pos + 1;
        Ok(b)
    } else {
        Err(ImportError::AssetReadFailure)
    }
}

/// Read one little-endian 16-bit integer, advancing the cursor.
pub fn read_u16_le(buf: &Vec<u8>, cursor: &mut BufferCursor) -> (r: Result<u16, ImportError>)
    ensures
        r is Ok <==> old(cursor).pos + 2 <= buf.len(),
        r is Ok ==> r.unwrap() as int == le16_spec(buf@, old(cursor).pos as int) && *final(cursor)
            == (BufferCursor { pos: (old(cursor).pos + 2) as usize, ..*old(cursor) }),
        r is Err ==> *final(cursor) == *old(cursor) && r.unwrap_err()
            == ImportError::AssetReadFailure,
{
    if buf.len() >= 2 && cursor.pos <= buf.len() - 2 {
        let b0 = buf[cursor.pos] as u16;
        let b1 = buf[cursor.pos + 1] as u16;
        cursor.pos = cursor.pos + 2;
        Ok(b0 + 0x100 * b1)
    } else {
        Err(ImportError::AssetReadFailure)
    }
}

/// Read one little-endian 32-bit integer, advancing the cursor.
pub fn read_u32_le(buf: &Vec<u8>, cursor: &mut BufferCursor) -> (r: Result<u32, ImportError>)
    ensures
        r is Ok <==> old(cursor).pos + 4 <= buf.len(),
        r is Ok ==> r.unwrap() as int == le32_spec(buf@, old(cursor).pos as int) && *final(cursor)
            == (BufferCursor { pos: (old(cursor).pos + 4) as usize, ..*old(cursor) }),
        r is Err ==> *final(cursor) == *old(cursor) && r.unwrap_err()
            == ImportError::AssetReadFailure,
{
    if buf.len() >= 4 && cursor.pos <= buf.len() - 4 {
        let b0 = buf[cursor.pos] as u32;
        let b1 = buf[cursor.pos + 1] as u32;
        let b2 = buf[cursor.pos + 2] as u32;
        let b3 = buf[cursor.pos + 3] as u32;
        cursor.pos = cursor.pos + 4;
        Ok(b0 + 0x100 * b1 + 0x1_0000 * b2 + 0x100_0000 * b3)
    } else {
        Err(ImportError::AssetReadFailure)
    }
}

/// The fixed-point value of the binary32 stored little-endian at `pos`.
pub open spec fn read_fx_spec(buf: Seq<u8>, pos: int) -> Fx {
    Fx { bits: fx_from_f32_bits_spec(le32_spec(buf, pos) as u32) as i64 }
}

/// Read one binary32 scalar as fixed point, advancing the cursor.
pub fn read_fx(buf: &Vec<u8>, cursor: &mut BufferCursor) -> (r: Result<Fx, ImportError>)
    ensures
        r is Ok <==> old(cursor).pos + 4 <= buf.len(),
        r is Ok ==> r.unwrap() == read_fx_spec(buf@, old(cursor).pos as int) && *final(cursor)
            == (BufferCursor { pos: (old(cursor).pos + 4) as usize, ..*old(cursor) }),
        r is Err ==> *final(cursor) == *old(cursor) && r.unwrap_err()
            == ImportError::AssetReadFailure,
{
    let bits = read_u32_le(buf, cursor);
    match bits {
        Ok(b) => Ok(fx_from_f32_bits(b)),
        Err(e) => Err(e),
    }
}

/// Read the binary32 scalar at a known in-range position.
pub fn read_fx_at(buf: &Vec<u8>, pos: usize) -> (r: Fx)
    requires
        pos + 4 <= buf.len(),
    ensures
        r == read_fx_spec(buf@, pos as int),
{
    let mut cursor = BufferCursor { buffer: 0, pos };
    match read_fx(buf, &mut cursor) {
        Ok(v) => v,
        Err(_) => Fx { bits: 0 },
    }
}

/// Read the little-endian 16-bit integer at a known in-range position.
pub fn read_u16_at(buf: &Vec<u8>, pos: usize) -> (r: u16)
    requires
        pos + 2 <= buf.len(),
    ensures
        r as int == le16_spec(buf@, pos as int),
{
    let mut cursor = BufferCursor { buffer: 0, pos };
    match read_u16_le(buf, &mut cursor) {
        Ok(v) => v,
        Err(_) => 0,
    }
}

/// Whether a node's optional transform arrays have the right arities
/// (three translation and scale components, four rotation components).
pub open spec fn node_trs_wf(node: GltfNode) -> bool {
    &&& (node.translation is Some ==> node.translation.unwrap().len() == 3)
    &&& (node.rotation is Some ==> node.rotation.unwrap().len() == 4)
    &&& (node.scale is Some ==> node.scale.unwrap().len() == 3)
}

/// The TRS a node declares; missing properties default to the identity
/// pose.
pub open spec fn node_trs_spec(node: GltfNode) -> (Fx3, Quat, Fx3) {
    let t = if node.translation is Some {
        let v = node.translation.unwrap();
        Fx3 { x: v[0], y: v[1], z: v[2] }
    } else {
        crate::linear::fx3_zero_spec()
    };
    let r = if node.rotation is Some {
        let v = node.rotation.unwrap();
        Quat { x: v[0], y: v[1], z: v[2], w: v[3] }
    } else {
        crate::linear::quat_identity_spec()
    };
    let s = if node.scale is Some {
        let v = node.scale.unwrap();
        Fx3 { x: v[0], y: v[1], z: v[2] }
    } else {
        crate::linear::fx3_one_spec()
    };
    (t, r, s)
}

/// The TRS a node declares.  A transform array of the wrong arity rejects
/// the node.
pub fn trs_from_gltf_node(node: &GltfNode) -> (r: Result<(Fx3, Quat, Fx3), ImportError>)
    ensures
        r is Ok <==> node_trs_wf(*node),
        r is Ok ==> r.unwrap() == node_trs_spec(*node),
        r is Err ==> r.unwrap_err() == ImportError::MalformedNodeGraph,
{
    let mut translation = crate::linear::fx3_zero();
    let mut rotation = crate::linear::quat_identity();
    let mut scale = crate::linear::fx3_one();

    match &node.translation {
        Some(values) => {
            if values.len() != 3 {
                return Err(ImportError::MalformedNodeGraph);
            }
            translation = Fx3 { x: values[0], y: values[1], z: values[2] };
        },
        None => {},
    }
    match &node.rotation {
        Some(values) => {
            if values.len() != 4 {
                return Err(ImportError::MalformedNodeGraph);
            }
            rotation = Quat { x: values[0], y: values[1], z: values[2], w: values[3] };
        },
        None => {},
    }
    match &node.scale {
        Some(values) => {
            if values.len() != 3 {
                return Err(ImportError::MalformedNodeGraph);
            }
            scale = Fx3 { x: values[0], y: values[1], z: values[2] };
        },
        None => {},
    }
    Ok((translation, rotation, scale))
}

/// The local bind matrix a node declares through its TRS.
pub fn matrix_from_gltf_node(node: &GltfNode) -> (r: Result<Mat4, ImportError>)
    ensures
        r is Ok <==> node_trs_wf(*node),
        r is Ok ==> r.unwrap() == {
            let (t, rot, s) = node_trs_spec(*node);
            mat4_trs_spec(t, rot, s)
        },
        r is Err ==> r.unwrap_err() == ImportError::MalformedNodeGraph,
{
    match trs_from_gltf_node(node) {
        Ok((t, rot, s)) => Ok(mat4_trs(&t, &rot, &s)),
        Err(e) => Err(e),
    }
}

} // verus!
