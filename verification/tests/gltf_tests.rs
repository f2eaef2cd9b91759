use ruccolo::decode::DecodeError;
use ruccolo::decode::decode;
use ruccolo::gltf::GltfAccessor;
use ruccolo::gltf::GltfAccessorComponentType;
use ruccolo::gltf::GltfAccessorType;
use ruccolo::gltf::GltfBufferView;
use ruccolo::gltf::GltfExtras;
use ruccolo::gltf::ParseError;
use ruccolo::gltf::load_document;
use ruccolo::json::JsonValue;
use ruccolo::json::parse_index;
use ruccolo::json::parse_nano;
use ruccolo::json::render_text;
use ruccolo::math::fixed::SCALE;
use ruccolo::renderable::RenderError;
use ruccolo::scene::WalkError;
use ruccolo::scene::build_scene;

#[test]
fn number_texts() {
    assert_eq!(parse_nano("0.5"), Some(500_000_000));
    assert_eq!(parse_nano("-2"), Some(-2_000_000_000));
    assert_eq!(parse_nano("1.25"), Some(1_250_000_000));
    assert_eq!(parse_nano("0"), Some(0));
    assert_eq!(parse_nano("1e5"), None);
    assert_eq!(parse_nano(""), None);
    assert_eq!(parse_nano("-"), None);
    assert_eq!(parse_index("7"), Some(7));
    assert_eq!(parse_index("7.5"), None);
    assert_eq!(parse_index("-7"), None);
    assert_eq!(parse_index("7.0"), Some(7));
}

#[test]
fn enum_codes() {
    assert_eq!(GltfAccessorComponentType::Float.to_typesize(), 4);
    assert_eq!(GltfAccessorComponentType::Byte.to_typesize(), 1);
    assert_eq!(GltfAccessorComponentType::UnsignedShort.to_typesize(), 2);
    assert_eq!(GltfAccessorComponentType::UnsignedInt.to_typesize(), 4);
    assert_eq!(GltfAccessorType::Scalar.to_length(), 1);
    assert_eq!(GltfAccessorType::Vec3.to_length(), 3);
    assert_eq!(GltfAccessorType::Mat2.to_length(), 4);
    assert_eq!(GltfAccessorType::Mat3.to_length(), 9);
    assert_eq!(GltfAccessorType::Mat4.to_length(), 16);
    assert_eq!(
        GltfAccessorComponentType::from_code(5126),
        Some(GltfAccessorComponentType::Float)
    );
    assert_eq!(GltfAccessorComponentType::from_code(9999), None);
}

fn empty_extras() -> GltfExtras {
    GltfExtras { extensions: None, extras: None }
}

#[test]
fn decoder_region() {
    // A view of 48 bytes at buffer offset 0; an accessor of four
    // three-component float elements at offset 0: stride 12, 48 bytes out.
    let accessor = GltfAccessor {
        buffer_view: Some(0),
        byte_offset: Some(0),
        component_type: GltfAccessorComponentType::Float,
        normalized: None,
        count: 4,
        accessor_type: GltfAccessorType::Vec3,
        max: None,
        min: None,
        sparse: None,
        name: None,
        extras: empty_extras(),
    };
    let views = vec![GltfBufferView {
        buffer: 0,
        byte_offset: Some(0),
        byte_length: 48,
        byte_stride: None,
        target: None,
        name: None,
        extras: empty_extras(),
    }];
    let bin: Vec<u8> = (0..48).map(|x| x as u8).collect();
    let region = decode(&accessor, &views, &bin).unwrap();
    assert_eq!(region.stride, 12);
    assert_eq!(region.count, 4);
    assert_eq!(region.bytes.len(), 48);
    assert_eq!(region.bytes, bin);
}

#[test]
fn decoder_rejects_out_of_bounds() {
    let accessor = GltfAccessor {
        buffer_view: Some(0),
        byte_offset: Some(4),
        component_type: GltfAccessorComponentType::Float,
        normalized: None,
        count: 4,
        accessor_type: GltfAccessorType::Vec3,
        max: None,
        min: None,
        sparse: None,
        name: None,
        extras: empty_extras(),
    };
    let views = vec![GltfBufferView {
        buffer: 0,
        byte_offset: Some(0),
        byte_length: 48,
        byte_stride: None,
        target: None,
        name: None,
        extras: empty_extras(),
    }];
    let bin: Vec<u8> = vec![0; 48];
    assert_eq!(
        decode(&accessor, &views, &bin).unwrap_err(),
        DecodeError::RegionOutOfBounds
    );

    let mut unknown_view = accessor;
    unknown_view.buffer_view = Some(3);
    assert_eq!(
        decode(&unknown_view, &views, &bin).unwrap_err(),
        DecodeError::UnknownView
    );
    let mut missing_view = unknown_view;
    missing_view.buffer_view = None;
    assert_eq!(
        decode(&missing_view, &views, &bin).unwrap_err(),
        DecodeError::MissingView
    );
    let short_bin: Vec<u8> = vec![0; 10];
    let mut in_view = missing_view;
    in_view.buffer_view = Some(0);
    assert_eq!(
        decode(&in_view, &views, &short_bin).unwrap_err(),
        DecodeError::ViewOutOfBounds
    );
}

const WALK_DOC: &str = r#"{
  "asset": {"version": "2.0"},
  "scene": 0,
  "scenes": [{"nodes": [0]}],
  "nodes": [{"children": [1]}, {"mesh": 0}],
  "meshes": [{"primitives": [{"attributes": {"POSITION": 0}, "indices": 1}]}],
  "accessors": [
    {"bufferView": 0, "byteOffset": 0, "componentType": 5126, "count": 3, "type": "VEC3"},
    {"bufferView": 1, "byteOffset": 0, "componentType": 5125, "count": 3, "type": "SCALAR"}
  ],
  "bufferViews": [
    {"buffer": 0, "byteOffset": 0, "byteLength": 36},
    {"buffer": 0, "byteOffset": 36, "byteLength": 12}
  ],
  "buffers": [{"byteLength": 48}]
}"#;

#[test]
fn walker_single_primitive() {
    // One root without a mesh and one child with a single triangle-list
    // primitive: exactly one renderable element comes out.
    let doc = load_document(WALK_DOC).unwrap();
    let bin: Vec<u8> = vec![0; 48];
    let queue = build_scene(&doc, &bin).unwrap();
    assert_eq!(queue.len(), 1);
    let element = &queue[0];
    let vertex = element.vertexbuffer.as_ref().unwrap();
    assert_eq!(vertex.stride, 12);
    assert_eq!(vertex.contents.len(), 36);
    let indices = element.indexbuffer.as_ref().unwrap();
    assert_eq!(indices.count, 3);
    assert_eq!(indices.contents.len(), 12);
}

#[test]
fn walker_reports_cycles() {
    let text = r#"{
      "asset": {"version": "2.0"},
      "scenes": [{"nodes": [0]}],
      "nodes": [{"children": [0]}],
      "buffers": [{"byteLength": 0}]
    }"#;
    let doc = load_document(text).unwrap();
    let bin: Vec<u8> = Vec::new();
    assert!(build_scene(&doc, &bin).is_err());
}

#[test]
fn walker_reports_missing_scene() {
    let no_scene = load_document(r#"{"asset": {"version": "2.0"}}"#).unwrap();
    let bin: Vec<u8> = Vec::new();
    assert_eq!(build_scene(&no_scene, &bin).unwrap_err(), WalkError::NoScene);
}

#[test]
fn walker_passes_over_unsupported_primitives() {
    // A topology other than triangle lists is passed over, recoverably.
    let points = WALK_DOC.replace(r#""indices": 1}"#, r#""indices": 1, "mode": 0}"#);
    let doc = load_document(&points).unwrap();
    let bin: Vec<u8> = vec![0; 48];
    assert_eq!(build_scene(&doc, &bin).unwrap().len(), 0);

    // A primitive without an index accessor is passed over too.
    let no_indices = WALK_DOC.replace(r#", "indices": 1}"#, "}");
    let doc = load_document(&no_indices).unwrap();
    assert_eq!(build_scene(&doc, &bin).unwrap().len(), 0);
}

#[test]
fn walker_rejects_bad_accessors() {
    // Indices that are not scalars stop the walk.
    let bad = WALK_DOC.replace(
        r#""componentType": 5125, "count": 3, "type": "SCALAR""#,
        r#""componentType": 5125, "count": 3, "type": "VEC3""#,
    );
    let doc = load_document(&bad).unwrap();
    let bin: Vec<u8> = vec![0; 48];
    assert_eq!(
        build_scene(&doc, &bin).unwrap_err(),
        WalkError::Render(RenderError::NotScalarIndices)
    );

    // An accessor reaching past its buffer view stops the walk.
    let oob = WALK_DOC.replace(r#""count": 3, "type": "VEC3""#, r#""count": 9, "type": "VEC3""#);
    let doc = load_document(&oob).unwrap();
    assert!(matches!(
        build_scene(&doc, &bin).unwrap_err(),
        WalkError::Render(RenderError::Decode(_))
    ));
}

#[test]
fn parse_rejects_non_object_document() {
    assert_eq!(load_document("[]").unwrap_err(), ParseError::NotAnObject);
}

#[test]
fn parse_defaults() {
    let doc = load_document(r#"{"asset": {"version": "2.0"}}"#).unwrap();
    assert_eq!(doc.asset.version, "2.0");
    assert_eq!(doc.default_scene, Some(0));
    assert_eq!(doc.nodes.len(), 0);
    assert_eq!(doc.meshes.len(), 0);
    assert_eq!(doc.accessors.len(), 0);
    assert_eq!(doc.buffer_views.len(), 0);
    assert_eq!(doc.buffers.len(), 0);
    assert_eq!(doc.scenes.len(), 0);
    assert_eq!(doc.materials.len(), 0);
}

#[test]
fn parse_node_defaults() {
    let doc = load_document(r#"{"asset": {"version": "2.0"}, "nodes": [{}]}"#).unwrap();
    let node = &doc.nodes[0];
    let identity: Vec<i64> = vec![
        SCALE, 0, 0, 0, 0, SCALE, 0, 0, 0, 0, SCALE, 0, 0, 0, 0, SCALE,
    ];
    assert_eq!(node.matrix.as_ref().unwrap(), &identity);
    assert_eq!(node.rotation.as_ref().unwrap(), &vec![0, 0, 0, SCALE]);
    assert_eq!(node.scale.as_ref().unwrap(), &vec![SCALE, SCALE, SCALE]);
    assert_eq!(node.translation.as_ref().unwrap(), &vec![0, 0, 0]);
    assert_eq!(node.children.len(), 0);
    assert!(node.mesh.is_none());
}

#[test]
fn parse_material_defaults() {
    let doc = load_document(r#"{"asset": {"version": "2.0"}, "materials": [{}]}"#).unwrap();
    let material = &doc.materials[0];
    assert_eq!(material.alpha_cutoff, Some(SCALE / 2));
    assert_eq!(material.emissive_factor.as_ref().unwrap(), &vec![0, 0, 0]);
    assert!(material.alpha_mode.is_none());
    assert!(material.pb_metallic_roughness.is_none());
}

#[test]
fn parse_sampler_defaults() {
    let doc = load_document(r#"{"asset": {"version": "2.0"}, "samplers": [{}]}"#).unwrap();
    let sampler = &doc.samplers[0];
    // An absent wrap mode defaults to repeat.
    assert_eq!(sampler.wrap_s, Some(ruccolo::gltf::GltfSamplerWrap::Repeat));
    assert_eq!(sampler.wrap_t, Some(ruccolo::gltf::GltfSamplerWrap::Repeat));
    assert!(sampler.mag_filter.is_none());
}

#[test]
fn parse_errors() {
    assert_eq!(
        load_document(r#"{"asset": {}}"#).unwrap_err(),
        ParseError::MissingField
    );
    assert_eq!(load_document("not a document").unwrap_err(), ParseError::InvalidText);
    assert_eq!(load_document(r#"{}"#).unwrap_err(), ParseError::MissingField);
    assert_eq!(
        load_document(r#"{"asset": {"version": 2}}"#).unwrap_err(),
        ParseError::WrongType
    );
    assert_eq!(
        load_document(r#"{"asset": {"version": "2.0"}, "nodes": [{"mesh": 0}]}"#).unwrap_err(),
        ParseError::BadIndex
    );
    assert_eq!(
        load_document(r#"{"asset": {"version": "2.0"}, "nodes": [{"mesh": 0.5}]}"#).unwrap_err(),
        ParseError::BadNumber
    );
    assert_eq!(
        load_document(
            r#"{"asset": {"version": "2.0"}, "accessors": [{"componentType": 9, "count": 1, "type": "VEC3"}]}"#,
        )
        .unwrap_err(),
        ParseError::BadEnum
    );
}

#[test]
fn round_trip_default_document() {
    // Serializing a document with all-default fields and parsing it again
    // gives the same effective values.
    let doc1 = load_document(r#"{"asset": {"version": "2.0"}}"#).unwrap();
    let rendered = render_text(&JsonValue::Obj(vec![(
        "asset".to_owned(),
        JsonValue::Obj(vec![("version".to_owned(), JsonValue::Str("2.0".to_owned()))]),
    )]))
    .unwrap();
    let doc2 = load_document(&rendered).unwrap();
    assert_eq!(doc1.asset.version, doc2.asset.version);
    assert_eq!(doc1.default_scene, doc2.default_scene);
    assert_eq!(doc1.nodes.len(), doc2.nodes.len());
    assert_eq!(doc1.meshes.len(), doc2.meshes.len());
    assert_eq!(doc1.scenes.len(), doc2.scenes.len());
    assert_eq!(doc1.accessors.len(), doc2.accessors.len());
    assert!(doc1.asset.copyright.is_none() && doc2.asset.copyright.is_none());
}
