//! Importing from a scene file: rig construction, the full pipeline, and
//! every rejection the taxonomy names.

use skelanim::errors::ImportError;
use skelanim::fx::{fx_from_f32_bits, Fx, FX_ONE};
use skelanim::gltf::{
    decode_buffer_uri, decode_buffers, GltfAccessor, GltfAnimation, GltfAnimationChannel,
    GltfAnimationChannelTarget, GltfAnimationSampler, GltfBuffer, GltfBufferView, GltfFile,
    GltfMesh, GltfMeshPrimitive, GltfNode, GltfScene, GltfSkin,
};
use skelanim::gltf::skeletal::{load_animations, load_rig, load_skeletal_entity};

fn fxf(v: f32) -> Fx {
    fx_from_f32_bits(v.to_bits())
}

fn f32le(vals: &[f32]) -> Vec<u8> {
    let mut out = Vec::new();
    for v in vals {
        out.extend_from_slice(&v.to_le_bytes());
    }
    out
}

fn node(name: &str) -> GltfNode {
    GltfNode {
        name: name.to_owned(),
        children: None,
        translation: None,
        rotation: None,
        scale: None,
        matrix: None,
        skin: None,
    }
}

fn accessor(view: usize, comp: i64, ty: &str, count: i64) -> GltfAccessor {
    GltfAccessor {
        buffer_view: view,
        component_type: comp,
        accessor_type: ty.to_owned(),
        count,
        min: None,
        max: None,
    }
}

fn view(buffer: usize) -> GltfBufferView {
    GltfBufferView { buffer, byte_length: 0, byte_offset: 0 }
}

/// Two bones under a skinned mesh node, one translation channel on the
/// child bone, a three-vertex triangle with joints and weights.
fn bear_file() -> GltfFile {
    let mut mesh_node = node("mob");
    mesh_node.skin = Some(0);
    let mut root_bone = node("hip");
    root_bone.translation = Some(vec![fxf(1.0), fxf(0.0), fxf(0.0)]);
    root_bone.children = Some(vec![2]);
    let mut child_bone = node("knee");
    child_bone.translation = Some(vec![fxf(0.0), fxf(2.0), fxf(0.0)]);

    let mut times = accessor(4, 5126, "SCALAR", 2);
    times.min = Some(vec![fxf(0.0)]);
    times.max = Some(vec![fxf(1.0)]);

    GltfFile {
        meshes: Some(vec![GltfMesh {
            name: "tri".to_owned(),
            primitives: vec![GltfMeshPrimitive {
                attributes: vec![
                    ("POSITION".to_owned(), 0),
                    ("JOINTS_0".to_owned(), 1),
                    ("WEIGHTS_0".to_owned(), 2),
                ],
                indices: Some(3),
                material: None,
                mode: None,
            }],
        }]),
        buffer_views: vec![view(0), view(1), view(2), view(3), view(4), view(5)],
        buffers: vec![],
        accessors: vec![
            accessor(0, 5126, "VEC3", 3),
            accessor(1, 5121, "VEC4", 3),
            accessor(2, 5126, "VEC4", 3),
            accessor(3, 5123, "SCALAR", 3),
            times,
            accessor(5, 5126, "VEC3", 2),
        ],
        scenes: vec![GltfScene { name: None, root_nodes: Some(vec![1]) }],
        nodes: vec![mesh_node, root_bone, child_bone],
        skins: Some(vec![GltfSkin {
            name: "skin".to_owned(),
            inverse_bind_matrices: 0,
            joints: vec![1, 2],
            skeleton: None,
        }]),
        animations: Some(vec![GltfAnimation {
            name: "walk".to_owned(),
            channels: vec![GltfAnimationChannel {
                sampler: 0,
                target: GltfAnimationChannelTarget { node: 2, path: "translation".to_owned() },
            }],
            samplers: vec![GltfAnimationSampler {
                input: 4,
                interpolation: "LINEAR".to_owned(),
                output: 5,
            }],
        }]),
        decoded_buffers: vec![
            f32le(&[0.0, 0.0, 0.0, 1.0, 0.0, 0.0, 0.0, 1.0, 0.0]),
            vec![1, 2, 0, 0, 2, 1, 0, 0, 1, 1, 0, 0],
            f32le(&[1.0, 0.0, 0.0, 0.0, 0.5, 0.5, 0.0, 0.0, 1.0, 0.0, 0.0, 0.0]),
            vec![0, 0, 1, 0, 2, 0],
            f32le(&[0.0, 1.0]),
            f32le(&[0.0, 0.0, 0.0, 3.0, 0.0, 0.0]),
        ],
    }
}

#[test]
fn rig_builds_with_the_ordering_invariant() {
    let file = bear_file();
    let rig = load_rig(&file).unwrap();
    assert_eq!(rig.joint_count, 2);
    // the root is canonical index 0 and its own parent; every joint's
    // parent has a strictly smaller canonical index
    assert_eq!(rig.joint_parents[0], 0);
    for j in 1..rig.joint_count {
        assert!(rig.joint_parents[j] < j);
    }
    assert_eq!(rig.remap_table.joints[&1], 0);
    assert_eq!(rig.remap_table.joints[&2], 1);
    assert_eq!(rig.joint_names[0], "hip");
    assert_eq!(rig.joint_names[1], "knee");
    assert_eq!(rig.joint_children[0], vec![1]);
}

#[test]
fn canonical_indices_follow_preorder_with_children_in_file_order() {
    // root bone (node 1) declares children [3, 2]: node 3 is recursed
    // fully before node 2, so preorder numbering gives 1->0, 3->1, 2->2
    let mut file = bear_file();
    let mut first = node("elbow");
    first.translation = Some(vec![fxf(0.0), fxf(0.0), fxf(3.0)]);
    file.nodes.push(first);
    file.nodes[1].children = Some(vec![3, 2]);
    let rig = load_rig(&file).unwrap();
    assert_eq!(rig.joint_count, 3);
    assert_eq!(rig.remap_table.joints[&1], 0);
    assert_eq!(rig.remap_table.joints[&3], 1);
    assert_eq!(rig.remap_table.joints[&2], 2);
    assert_eq!(rig.joint_names, vec!["hip", "elbow", "knee"]);
    assert_eq!(rig.joint_parents, vec![0, 0, 0]);
    assert_eq!(rig.joint_children[0], vec![1, 2]);
}

#[test]
fn time_bounds_are_the_min_and_max_of_declared_bounds() {
    // chart all three properties of the child bone with declared bounds
    // far out: the discovered minimum is the least declared bound itself,
    // however large, and the maximum the greatest
    let entity = load_skeletal_entity("mob", &bear_file()).unwrap();
    let mut file = bear_file();
    let mut times = accessor(6, 5126, "SCALAR", 1);
    times.min = Some(vec![fxf(10000.0)]);
    times.max = Some(vec![fxf(0.0)]);
    file.accessors.push(times);
    file.accessors.push(accessor(7, 5126, "VEC3", 1));
    file.accessors.push(accessor(8, 5126, "VEC4", 1));
    file.accessors.push(accessor(9, 5126, "VEC3", 1));
    file.buffer_views.push(view(6));
    file.buffer_views.push(view(7));
    file.buffer_views.push(view(8));
    file.buffer_views.push(view(9));
    file.decoded_buffers.push(f32le(&[0.0]));
    file.decoded_buffers.push(f32le(&[0.0, 0.0, 0.0]));
    file.decoded_buffers.push(f32le(&[0.0, 0.0, 0.0, 1.0]));
    file.decoded_buffers.push(f32le(&[1.0, 1.0, 1.0]));
    let anim = file.animations.as_mut().unwrap();
    anim[0].channels = vec![
        GltfAnimationChannel {
            sampler: 0,
            target: GltfAnimationChannelTarget { node: 2, path: "translation".to_owned() },
        },
        GltfAnimationChannel {
            sampler: 1,
            target: GltfAnimationChannelTarget { node: 2, path: "rotation".to_owned() },
        },
        GltfAnimationChannel {
            sampler: 2,
            target: GltfAnimationChannelTarget { node: 2, path: "scale".to_owned() },
        },
    ];
    anim[0].samplers = vec![
        GltfAnimationSampler { input: 6, interpolation: "LINEAR".to_owned(), output: 7 },
        GltfAnimationSampler { input: 6, interpolation: "LINEAR".to_owned(), output: 8 },
        GltfAnimationSampler { input: 6, interpolation: "LINEAR".to_owned(), output: 9 },
    ];
    let loaded = load_animations(&entity, &file).unwrap();
    assert_eq!(loaded.min_time.bits, 10000 * FX_ONE);
    assert_eq!(loaded.max_time.bits, 0);
    assert_eq!(loaded.num_frames, 0);
}

#[test]
fn missing_skin_is_rejected() {
    let mut file = bear_file();
    file.nodes[0].skin = None;
    assert_eq!(load_rig(&file).unwrap_err(), ImportError::MissingSkin);
    let mut file2 = bear_file();
    file2.skins = None;
    assert_eq!(load_rig(&file2).unwrap_err(), ImportError::MissingSkin);
}

#[test]
fn cyclic_node_graph_is_rejected() {
    let mut file = bear_file();
    // the child bone points back at the root bone
    file.nodes[2].children = Some(vec![1]);
    assert_eq!(load_rig(&file).unwrap_err(), ImportError::MalformedNodeGraph);
}

#[test]
fn full_pipeline_samples_the_imported_animation() {
    let file = bear_file();
    let entity = load_skeletal_entity("mob", &file).unwrap();
    assert_eq!(entity.rig.joint_count, 2);
    // per-vertex joint indices were remapped into canonical numbering
    assert_eq!(entity.mesh.attribs.joint_indices[0].x, 0);
    assert_eq!(entity.mesh.attribs.joint_indices[0].y, 1);
    assert_eq!(entity.mesh.indices, vec![0, 1, 2]);
    assert_eq!(entity.mesh.attribs.position.len(), 3);
    assert_eq!(entity.mesh.attribs.position[1].x.bits, FX_ONE);

    let anim = load_animations(&entity, &file).unwrap();
    assert_eq!(anim.name, "walk");
    assert_eq!(anim.sample_rate.bits, 30 * FX_ONE);
    assert_eq!(anim.min_time.bits, 0);
    assert_eq!(anim.max_time.bits, FX_ONE);
    assert_eq!(anim.num_frames, 30);
    assert_eq!(anim.joints.len(), 2);
    // the uncharted root keeps identity frames
    assert_eq!(anim.joints[0][0].translation.x.bits, 0);
    // frame 0 of the charted child: factor 0 against the bracket
    // (identity at 0, keyframe at 1), so the identity
    assert_eq!(anim.joints[1][0].translation.x.bits, 0);
    // frame 15 sits at 15 * (1/30 in fixed point) = 32760 bits, between
    // the keyframes at 0 and 1: x = 3 * 32760 bits exactly
    assert_eq!(anim.joints[1][15].translation.x.bits, 3 * 32760);
}

#[test]
fn animation_count_must_be_exactly_one() {
    let file = bear_file();
    let entity = load_skeletal_entity("mob", &file).unwrap();

    let mut none = bear_file();
    none.animations = None;
    assert_eq!(load_animations(&entity, &none).unwrap_err(), ImportError::MissingAnimation);

    let mut two = bear_file();
    let extra = two.animations.as_ref().unwrap()[0].name.clone();
    let a0 = GltfAnimation { name: extra, channels: vec![], samplers: vec![] };
    let a1 = GltfAnimation { name: "b".to_owned(), channels: vec![], samplers: vec![] };
    two.animations = Some(vec![a0, a1]);
    assert_eq!(
        load_animations(&entity, &two).unwrap_err(),
        ImportError::UnsupportedMultiAnimation
    );
}

#[test]
fn non_uniform_rig_scale_is_rejected() {
    let file = bear_file();
    let entity = load_skeletal_entity("mob", &file).unwrap();
    let mut bad = bear_file();
    bad.nodes[1].scale = Some(vec![fxf(1.0), fxf(2.0), fxf(1.0)]);
    assert_eq!(load_animations(&entity, &bad).unwrap_err(), ImportError::NonUniformRigScale);
}

#[test]
fn uniform_rig_scale_multiplies_translations() {
    let file = bear_file();
    let entity = load_skeletal_entity("mob", &file).unwrap();
    let mut scaled = bear_file();
    scaled.nodes[1].scale = Some(vec![fxf(2.0), fxf(2.0), fxf(2.0)]);
    let anim = load_animations(&entity, &scaled).unwrap();
    // the keyframe at time 1 holds x = 3; doubled by the rig scale and
    // interpolated at frame 15 exactly as the unscaled value would be
    assert_eq!(anim.joints[1][15].translation.x.bits, 6 * 32760);
}

#[test]
fn sampler_shape_rejections() {
    let file = bear_file();
    let entity = load_skeletal_entity("mob", &file).unwrap();

    let mut mismatch = bear_file();
    mismatch.accessors[5].count = 3;
    assert_eq!(
        load_animations(&entity, &mismatch).unwrap_err(),
        ImportError::SamplerCountMismatch
    );

    let mut notfloat = bear_file();
    notfloat.accessors[4].component_type = 5123;
    assert_eq!(
        load_animations(&entity, &notfloat).unwrap_err(),
        ImportError::UnsupportedAccessorShape
    );

    let mut nobounds = bear_file();
    nobounds.accessors[4].min = None;
    assert_eq!(
        load_animations(&entity, &nobounds).unwrap_err(),
        ImportError::MissingTimeBounds
    );

    let mut notscalar = bear_file();
    notscalar.accessors[4].accessor_type = "VEC3".to_owned();
    assert_eq!(
        load_animations(&entity, &notscalar).unwrap_err(),
        ImportError::UnsupportedAccessorShape
    );

    let mut truncated = bear_file();
    truncated.decoded_buffers[5] = f32le(&[0.0, 0.0, 0.0]);
    assert_eq!(
        load_animations(&entity, &truncated).unwrap_err(),
        ImportError::AssetReadFailure
    );

    let mut unknown_target = bear_file();
    unknown_target.animations.as_mut().unwrap()[0].channels[0].target.node = 0;
    assert_eq!(
        load_animations(&entity, &unknown_target).unwrap_err(),
        ImportError::MalformedNodeGraph
    );
}

#[test]
fn mesh_accessor_shape_rejections() {
    let mut badpos = bear_file();
    badpos.accessors[0].accessor_type = "VEC2".to_owned();
    assert_eq!(
        load_skeletal_entity("mob", &badpos).unwrap_err(),
        ImportError::UnsupportedAccessorShape
    );

    let mut badweights = bear_file();
    badweights.accessors[2].component_type = 5121;
    assert_eq!(
        load_skeletal_entity("mob", &badweights).unwrap_err(),
        ImportError::UnsupportedAccessorShape
    );

    let mut badindices = bear_file();
    badindices.accessors[3].component_type = 5125;
    assert_eq!(
        load_skeletal_entity("mob", &badindices).unwrap_err(),
        ImportError::UnsupportedAccessorShape
    );
}

#[test]
fn buffer_uri_decoding_round_trips() {
    let payload: Vec<u8> = vec![1, 2, 3, 4, 251];
    let uri = format!("data:application/octet-stream;base64,{}", base64::encode(&payload));
    assert_eq!(decode_buffer_uri(&uri).unwrap(), payload);

    // a wrong scheme prefix is rejected
    assert_eq!(
        decode_buffer_uri("file://bear.bin").unwrap_err(),
        ImportError::AssetReadFailure
    );
    // broken base64 is rejected
    assert_eq!(
        decode_buffer_uri("data:application/octet-stream;base64,!!!").unwrap_err(),
        ImportError::AssetReadFailure
    );

    let buffers = vec![GltfBuffer { byte_length: 5, uri }];
    let decoded = decode_buffers(&buffers).unwrap();
    assert_eq!(decoded, vec![payload]);
}

#[test]
fn error_descriptions_match_the_taxonomy() {
    assert_eq!(ImportError::MissingSkin.describe(), "no skinned node in the source file");
    assert_eq!(
        ImportError::UnsupportedMultiAnimation.describe(),
        "multiple animations not yet supported"
    );
    assert_eq!(ImportError::MissingAnimation.describe(), "no animations");
    assert_eq!(
        ImportError::SamplerCountMismatch.describe(),
        "sampler input/output count mismatch"
    );
}
