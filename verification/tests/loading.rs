//! Loading documents from text and from the binary container, and decoding
//! accessor data through the typed readers.

use std::collections::HashMap;
use goth_gltf::model::{Gltf, ComponentType, AccessorType, AlphaMode, SamplerWrap, PrimitiveMode,
    NodeTransform, Interpolation};
use goth_gltf::json::ErrorKind;
use goth_gltf::primitive_reader::{PrimitiveReader, Error, ReaderKind, read_buffer_with_accessor,
    read_u32};

fn f32_vec(bits: &[u32]) -> Vec<f32> {
    bits.iter().map(|b| f32::from_bits(*b)).collect()
}

fn close(a: f32, b: f32) -> bool {
    (a - b).abs() <= 1.0e-6
}

#[test]
fn minimal_document_defaults() {
    let gltf = Gltf::from_json_string("{}").unwrap();
    assert_eq!(gltf.buffers.len(), 0);
    assert_eq!(gltf.accessors.len(), 0);
    assert_eq!(gltf.meshes.len(), 0);
    assert_eq!(gltf.scene, 0);
    assert!(gltf.extensions.khr_lights_punctual.is_none());
}

#[test]
fn accessor_fields_and_defaults() {
    let text = r#"{
        "accessors": [
            {"componentType": 5126, "count": 3, "type": "VEC3"},
            {"bufferView": 1, "byteOffset": 12, "componentType": 5121,
             "normalized": true, "count": 4, "type": "VEC4",
             "min": [0, 0.5], "max": [1, 1.5]}
        ]
    }"#;
    let gltf = Gltf::from_json_string(text).unwrap();
    assert_eq!(gltf.accessors.len(), 2);
    let a = &gltf.accessors[0];
    assert_eq!(a.buffer_view, None);
    assert_eq!(a.byte_offset, 0);
    assert_eq!(a.component_type, ComponentType::Float);
    assert!(!a.normalized);
    assert_eq!(a.count, 3);
    assert_eq!(a.accessor_type, AccessorType::Vec3);
    let b = &gltf.accessors[1];
    assert_eq!(b.buffer_view, Some(1));
    assert_eq!(b.byte_offset, 12);
    assert_eq!(b.component_type, ComponentType::UnsignedByte);
    assert!(b.normalized);
    assert_eq!(b.accessor_type, AccessorType::Vec4);
    let min = f32_vec(b.min.as_ref().unwrap());
    assert_eq!(min, vec![0.0, 0.5]);
    let max = f32_vec(b.max.as_ref().unwrap());
    assert_eq!(max, vec![1.0, 1.5]);
}

#[test]
fn material_defaults_and_values() {
    let text = r#"{
        "materials": [
            {},
            {"baseColorFactor": [1,0,0,1],
             "pbrMetallicRoughness": {"metallicFactor": 0.25},
             "alphaMode": "BLEND", "doubleSided": true,
             "emissiveFactor": [0.5, 0.5, 0.5],
             "extensions": {"KHR_materials_ior": {"ior": 1.33}}}
        ]
    }"#;
    let gltf = Gltf::from_json_string(text).unwrap();
    let m0 = &gltf.materials[0];
    assert_eq!(f32_vec(&m0.pbr_metallic_roughness.base_color_factor), vec![1.0, 1.0, 1.0, 1.0]);
    assert_eq!(f32::from_bits(m0.pbr_metallic_roughness.metallic_factor), 1.0);
    assert_eq!(f32::from_bits(m0.alpha_cutoff), 0.5);
    assert_eq!(m0.alpha_mode, AlphaMode::Opaque);
    assert!(!m0.double_sided);
    let m1 = &gltf.materials[1];
    assert_eq!(f32::from_bits(m1.pbr_metallic_roughness.metallic_factor), 0.25);
    assert_eq!(m1.alpha_mode, AlphaMode::Blend);
    assert!(m1.double_sided);
    assert_eq!(f32_vec(&m1.emissive_factor), vec![0.5, 0.5, 0.5]);
    let ior = m1.extensions.khr_materials_ior.as_ref().unwrap();
    assert_eq!(f32::from_bits(ior.ior), 1.33);
}

#[test]
fn sampler_defaults() {
    let text = r#"{"samplers": [{"magFilter": 9729, "minFilter": 9987}]}"#;
    let gltf = Gltf::from_json_string(text).unwrap();
    let s = &gltf.samplers[0];
    assert_eq!(s.wrap_s, SamplerWrap::Repeat);
    assert_eq!(s.wrap_t, SamplerWrap::Repeat);
    assert!(s.mag_filter.is_some());
    let mf = s.min_filter.as_ref().unwrap();
    assert!(mf.mipmap.is_some());
}

#[test]
fn animation_interpolation_default() {
    let text = r#"{
        "animations": [{
            "channels": [{"sampler": 0, "target": {"node": 2, "path": "rotation"}}],
            "samplers": [{"input": 0, "output": 1}]
        }]
    }"#;
    let gltf = Gltf::from_json_string(text).unwrap();
    let anim = &gltf.animations[0];
    assert_eq!(anim.samplers[0].interpolation, Interpolation::Linear);
    assert_eq!(anim.channels[0].sampler, 0);
}

#[test]
fn bad_enum_value_is_rejected_with_position() {
    // a component type outside the table fails, pointing at the value
    let text = r#"{"accessors": [{"componentType": 9999, "count": 1, "type": "SCALAR"}]}"#;
    let err = Gltf::from_json_string(text).unwrap_err();
    assert_eq!(err.kind, ErrorKind::BadEnumValue);
    assert_eq!(err.line, 1);
    assert!(err.col > 1);
}

#[test]
fn missing_required_field_is_rejected() {
    let text = r#"{"accessors": [{"componentType": 5126, "type": "SCALAR"}]}"#;
    let err = Gltf::from_json_string(text).unwrap_err();
    assert_eq!(err.kind, ErrorKind::MissingField);
}

#[test]
fn malformed_syntax_reports_line_and_column() {
    let err = Gltf::from_json_string("{\n  \"accessors\": [,]\n}").unwrap_err();
    assert_eq!(err.line, 2);
    assert_eq!(err.kind, ErrorKind::UnexpectedCharacter);
}

#[test]
fn node_transform_translation_only() {
    // a node with only a translation takes identity rotation and scale
    let text = r#"{"nodes": [{"translation": [1, 0, 0]}]}"#;
    let gltf = Gltf::from_json_string(text).unwrap();
    match gltf.nodes[0].transform() {
        NodeTransform::Decomposed { translation, rotation, scale } => {
            assert_eq!(f32_vec(&translation), vec![1.0, 0.0, 0.0]);
            assert_eq!(f32_vec(&rotation), vec![0.0, 0.0, 0.0, 1.0]);
            assert_eq!(f32_vec(&scale), vec![1.0, 1.0, 1.0]);
        },
        NodeTransform::Matrix(_) => panic!("expected decomposed transform"),
    }
}

#[test]
fn node_transform_matrix_only() {
    // a matrix without the full discrete triple is used verbatim
    let text = r#"{"nodes": [{"matrix": [1,0,0,0, 0,1,0,0, 0,0,1,0, 5,6,7,1],
                              "translation": [9, 9, 9]}]}"#;
    let gltf = Gltf::from_json_string(text).unwrap();
    match gltf.nodes[0].transform() {
        NodeTransform::Matrix(m) => {
            let vals = f32_vec(&m);
            assert_eq!(vals[12], 5.0);
            assert_eq!(vals[15], 1.0);
        },
        NodeTransform::Decomposed { .. } => panic!("expected matrix transform"),
    }
}

#[test]
fn node_transform_full_triple_beats_matrix() {
    // a matrix beside a fully specified triple is discarded
    let text = r#"{"nodes": [{"matrix": [2,0,0,0, 0,2,0,0, 0,0,2,0, 0,0,0,1],
                              "translation": [1, 2, 3],
                              "rotation": [0, 0, 0, 1],
                              "scale": [2, 2, 2]}]}"#;
    let gltf = Gltf::from_json_string(text).unwrap();
    match gltf.nodes[0].transform() {
        NodeTransform::Decomposed { translation, rotation, scale } => {
            assert_eq!(f32_vec(&translation), vec![1.0, 2.0, 3.0]);
            assert_eq!(f32_vec(&rotation), vec![0.0, 0.0, 0.0, 1.0]);
            assert_eq!(f32_vec(&scale), vec![2.0, 2.0, 2.0]);
        },
        NodeTransform::Matrix(_) => panic!("expected decomposed transform"),
    }
}

fn glb_of(json: &str, bin: Option<&[u8]>) -> Vec<u8> {
    let json_bytes = json.as_bytes();
    let mut out: Vec<u8> = Vec::new();
    out.extend_from_slice(b"glTF");
    out.extend_from_slice(&2u32.to_le_bytes());
    out.extend_from_slice(&0u32.to_le_bytes());
    out.extend_from_slice(&(json_bytes.len() as u32).to_le_bytes());
    out.extend_from_slice(b"JSON");
    out.extend_from_slice(json_bytes);
    if let Some(b) = bin {
        out.extend_from_slice(&(b.len() as u32).to_le_bytes());
        out.extend_from_slice(b"BIN\0");
        out.extend_from_slice(b);
    }
    out
}

#[test]
fn container_and_plain_loads_agree() {
    // the framed load yields the same document as the chunk loaded alone
    let json = r#"{"buffers": [{"byteLength": 4}], "scene": 0,
                   "nodes": [{"translation": [1, 2, 3]}]}"#;
    let glb = glb_of(json, Some(&[9, 8, 7, 6]));
    let (from_container, bin) = Gltf::from_bytes(&glb).unwrap();
    let from_text = Gltf::from_json_bytes(json.as_bytes()).unwrap();
    assert_eq!(bin, Some(&[9u8, 8, 7, 6][..]));
    assert_eq!(from_container, from_text);
}

#[test]
fn container_without_binary_chunk() {
    let json = r#"{"buffers": [{"byteLength": 4}]}"#;
    let glb = glb_of(json, None);
    let (gltf, bin) = Gltf::from_bytes(&glb).unwrap();
    assert!(bin.is_none());
    assert_eq!(gltf.buffers[0].byte_length, 4);
}

#[test]
fn container_with_overlong_declared_length_is_refused() {
    let json = r#"{}"#;
    let mut glb = glb_of(json, None);
    // overstate the text chunk's length past the input's end
    glb[12] = 0xFF;
    glb[13] = 0xFF;
    let err = Gltf::from_bytes(&glb).unwrap_err();
    assert_eq!(err.kind, ErrorKind::UnexpectedEnd);
}

#[test]
fn plain_text_without_magic_loads_whole() {
    let json = r#"{"scene": 7}"#;
    let (gltf, bin) = Gltf::from_bytes(json.as_bytes()).unwrap();
    assert!(bin.is_none());
    assert_eq!(gltf.scene, 7);
}

fn one_accessor_doc(component_type: u64, normalized: bool, count: usize, ty: &str) -> Gltf {
    let text = format!(
        r#"{{"bufferViews": [{{"buffer": 0, "byteLength": 64}}],
            "accessors": [{{"bufferView": 0, "componentType": {}, "normalized": {}, "count": {}, "type": "{}"}}]}}"#,
        component_type, normalized, count, ty
    );
    Gltf::from_json_string(&text).unwrap()
}

#[test]
fn normalized_bytes_decode_to_fractions() {
    // an unsigned-byte normalized four-wide accessor over [0,127,255,255]
    let gltf = {
        let text = r#"{
            "bufferViews": [{"buffer": 0, "byteLength": 4, "byteStride": 4}],
            "accessors": [{"bufferView": 0, "componentType": 5121,
                           "normalized": true, "count": 1, "type": "VEC4"}],
            "meshes": [{"primitives": [{"attributes": {"WEIGHTS_0": 0}}]}]
        }"#;
        Gltf::from_json_string(text).unwrap()
    };
    let mut map: HashMap<usize, Vec<u8>> = HashMap::new();
    map.insert(0usize, vec![0u8, 127, 255, 255]);
    let reader = PrimitiveReader::new(&gltf, &gltf.meshes[0].primitives[0], &map);
    let weights = reader.read_weights().unwrap().unwrap();
    let vals = f32_vec(&weights);
    assert_eq!(vals.len(), 4);
    assert!(close(vals[0], 0.0));
    assert!((vals[1] - 0.498).abs() < 1.0e-3);
    assert_eq!(vals[1].to_bits(), (127.0f32 / 255.0f32).to_bits());
    assert!(close(vals[2], 1.0));
    assert!(close(vals[3], 1.0));
}

#[test]
fn unsupported_combination_is_an_error() {
    // a thirty-two-bit integer read over float normalized data is refused,
    // never reinterpreted
    let gltf = one_accessor_doc(5126, true, 1, "SCALAR");
    let mut map: HashMap<usize, Vec<u8>> = HashMap::new();
    map.insert(0usize, vec![0u8; 4]);
    let (slice, stride) = read_buffer_with_accessor(&map, &gltf, &gltf.accessors[0]).unwrap();
    let err = read_u32(slice, stride, &gltf.accessors[0]).unwrap_err();
    match err {
        Error::UnsupportedCombination(rk, ct, norm, st) => {
            assert_eq!(rk, ReaderKind::U32);
            assert_eq!(ct, ComponentType::Float);
            assert!(norm);
            assert_eq!(st, None);
        },
        other => panic!("expected an unsupported-combination error, got {:?}", other),
    }
}

#[test]
fn out_of_range_view_index_is_reported() {
    // an accessor naming view fifty among three views fails with the index
    let text = r#"{
        "bufferViews": [{"buffer": 0, "byteLength": 1},
                        {"buffer": 0, "byteLength": 1},
                        {"buffer": 0, "byteLength": 1}],
        "accessors": [{"bufferView": 50, "componentType": 5126, "count": 1, "type": "SCALAR"}]
    }"#;
    let gltf = Gltf::from_json_string(text).unwrap();
    let map: HashMap<usize, Vec<u8>> = HashMap::new();
    let err = read_buffer_with_accessor(&map, &gltf, &gltf.accessors[0]).unwrap_err();
    assert_eq!(err, Error::BufferViewIndexOutOfBounds(50));
}

#[test]
fn missing_buffer_view_is_reported() {
    let text = r#"{"accessors": [{"componentType": 5126, "count": 1, "type": "SCALAR"}]}"#;
    let gltf = Gltf::from_json_string(text).unwrap();
    let map: HashMap<usize, Vec<u8>> = HashMap::new();
    let err = read_buffer_with_accessor(&map, &gltf, &gltf.accessors[0]).unwrap_err();
    assert_eq!(err, Error::AccessorMissingBufferView);
}

#[test]
fn out_of_range_accessor_index_is_reported() {
    let text = r#"{"meshes": [{"primitives": [{"attributes": {}, "indices": 9}]}]}"#;
    let gltf = Gltf::from_json_string(text).unwrap();
    let map: HashMap<usize, Vec<u8>> = HashMap::new();
    let reader = PrimitiveReader::new(&gltf, &gltf.meshes[0].primitives[0], &map);
    assert_eq!(reader.read_indices().unwrap_err(), Error::AccessorIndexOutOfBounds(9));
}

#[test]
fn positions_round_trip_end_to_end() {
    // one buffer, one view, one float three-wide accessor of three elements
    // over thirty-six bytes round-trips through the position reader
    let originals: Vec<[f32; 3]> = vec![
        [1.0, 2.0, 3.0],
        [-4.5, 0.25, 1.0e6],
        [0.0, -0.0, 42.125],
    ];
    let mut bytes: Vec<u8> = Vec::new();
    for v in &originals {
        for c in v {
            bytes.extend_from_slice(&c.to_le_bytes());
        }
    }
    let text = r#"{
        "buffers": [{"byteLength": 36}],
        "bufferViews": [{"buffer": 0, "byteLength": 36}],
        "accessors": [{"bufferView": 0, "componentType": 5126, "count": 3, "type": "VEC3"}],
        "meshes": [{"primitives": [{"attributes": {"POSITION": 0}}]}]
    }"#;
    let gltf = Gltf::from_json_string(text).unwrap();
    let mut map: HashMap<usize, Vec<u8>> = HashMap::new();
    map.insert(0usize, bytes);
    let reader = PrimitiveReader::new(&gltf, &gltf.meshes[0].primitives[0], &map);
    let positions = reader.read_positions().unwrap().unwrap();
    let vals = f32_vec(&positions);
    assert_eq!(vals.len(), 9);
    for (i, v) in originals.iter().enumerate() {
        for (j, c) in v.iter().enumerate() {
            assert_eq!(vals[3 * i + j].to_bits(), c.to_bits());
        }
    }
}

#[test]
fn indices_widen_and_byte_ranges_clamp() {
    // unsigned-short indices widen to thirty-two bits; a count overstating
    // the available bytes clamps to them
    let text = r#"{
        "bufferViews": [{"buffer": 0, "byteLength": 6}],
        "accessors": [{"bufferView": 0, "componentType": 5123, "count": 99, "type": "SCALAR"}],
        "meshes": [{"primitives": [{"attributes": {}, "indices": 0}]}]
    }"#;
    let gltf = Gltf::from_json_string(text).unwrap();
    let mut map: HashMap<usize, Vec<u8>> = HashMap::new();
    map.insert(0usize, vec![1, 0, 2, 0, 0xFF, 0xFF]);
    let reader = PrimitiveReader::new(&gltf, &gltf.meshes[0].primitives[0], &map);
    let idx = reader.read_indices().unwrap().unwrap();
    assert_eq!(idx, vec![1u32, 2, 65535]);
}

#[test]
fn meshopt_stride_override_wins() {
    let text = r#"{
        "bufferViews": [{"buffer": 0, "byteLength": 64, "byteStride": 12,
            "extensions": {"EXT_meshopt_compression": {
                "buffer": 1, "byteLength": 64, "byteStride": 16,
                "mode": "ATTRIBUTES", "count": 4}}}],
        "accessors": [{"bufferView": 0, "componentType": 5126, "count": 4, "type": "VEC3"}]
    }"#;
    let gltf = Gltf::from_json_string(text).unwrap();
    assert_eq!(goth_gltf::primitive_reader::byte_stride(&gltf.accessors[0], &gltf.buffer_views[0]), 16);
}

#[test]
fn string_escapes_and_unicode() {
    let text = r#"{"images": [{"uri": "a\/b \n A 😀.png"}]}"#;
    let gltf = Gltf::from_json_string(text).unwrap();
    let uri = gltf.images[0].uri.as_ref().unwrap();
    assert_eq!(uri.as_str(), "a/b \n A \u{1F600}.png");
}

#[test]
fn lights_extension_parses() {
    let text = r#"{"extensions": {"KHR_lights_punctual": {"lights": [
        {"type": "spot", "intensity": 2.5, "spot": {"outerConeAngle": 0.9}}
    ]}}}"#;
    let gltf = Gltf::from_json_string(text).unwrap();
    let lights = &gltf.extensions.khr_lights_punctual.as_ref().unwrap().lights;
    assert_eq!(lights.len(), 1);
    assert_eq!(f32::from_bits(lights[0].intensity), 2.5);
    let spot = lights[0].spot.as_ref().unwrap();
    assert_eq!(f32::from_bits(spot.outer_cone_angle), 0.9);
    assert_eq!(f32::from_bits(spot.inner_cone_angle), 0.0);
}

#[test]
fn glxf_document_parses() {
    let text = r#"{
        "assets": [{"uri": "part.gltf", "transform": "local"},
                   {"uri": "other.gltf", "nodes": ["a", "b"]}],
        "scenes": [{"nodes": [0]}]
    }"#;
    let g = goth_gltf::glxf::Glxf::from_json_string(text).unwrap();
    assert_eq!(g.assets.len(), 2);
    assert_eq!(g.assets[0].uri.as_str(), "part.gltf");
    assert_eq!(g.assets[0].transform, goth_gltf::glxf::AssetTransform::Local);
    assert_eq!(g.assets[1].transform, goth_gltf::glxf::AssetTransform::Global);
    assert_eq!(g.assets[1].nodes.as_ref().unwrap().len(), 2);
}

#[test]
fn joints_widen_from_bytes() {
    let text = r#"{
        "bufferViews": [{"buffer": 0, "byteLength": 8, "byteStride": 4}],
        "accessors": [{"bufferView": 0, "componentType": 5121, "count": 2, "type": "VEC4"}],
        "meshes": [{"primitives": [{"attributes": {"JOINTS_0": 0}}]}]
    }"#;
    let gltf = Gltf::from_json_string(text).unwrap();
    let mut map: HashMap<usize, Vec<u8>> = HashMap::new();
    map.insert(0usize, vec![1, 2, 3, 4, 5, 6, 7, 8]);
    let reader = PrimitiveReader::new(&gltf, &gltf.meshes[0].primitives[0], &map);
    let joints = reader.read_joints().unwrap().unwrap();
    assert_eq!(joints, vec![1u32, 2, 3, 4, 5, 6, 7, 8]);
}

#[test]
fn uvs_from_normalized_shorts() {
    let text = r#"{
        "bufferViews": [{"buffer": 0, "byteLength": 8, "byteStride": 4}],
        "accessors": [{"bufferView": 0, "componentType": 5123,
                       "normalized": true, "count": 2, "type": "VEC2"}],
        "meshes": [{"primitives": [{"attributes": {"TEXCOORD_0": 0}}]}]
    }"#;
    let gltf = Gltf::from_json_string(text).unwrap();
    let mut map: HashMap<usize, Vec<u8>> = HashMap::new();
    // two elements: (0, 65535) and (32768, 16384), little endian
    map.insert(0usize, vec![0, 0, 0xFF, 0xFF, 0x00, 0x80, 0x00, 0x40]);
    let reader = PrimitiveReader::new(&gltf, &gltf.meshes[0].primitives[0], &map);
    let uvs = reader.read_uvs().unwrap().unwrap();
    let vals = f32_vec(&uvs);
    assert_eq!(vals[0].to_bits(), 0.0f32.to_bits());
    assert_eq!(vals[1].to_bits(), 1.0f32.to_bits());
    assert_eq!(vals[2].to_bits(), (32768.0f32 / 65535.0f32).to_bits());
    assert_eq!(vals[3].to_bits(), (16384.0f32 / 65535.0f32).to_bits());
}

#[test]
fn scalar_float_read_passes_bits_through() {
    let text = r#"{
        "bufferViews": [{"buffer": 0, "byteLength": 8}],
        "accessors": [{"bufferView": 0, "componentType": 5126, "count": 2, "type": "SCALAR"}]
    }"#;
    let gltf = Gltf::from_json_string(text).unwrap();
    let mut map: HashMap<usize, Vec<u8>> = HashMap::new();
    let mut bytes: Vec<u8> = Vec::new();
    bytes.extend_from_slice(&2.5f32.to_le_bytes());
    bytes.extend_from_slice(&(-7.0f32).to_le_bytes());
    map.insert(0usize, bytes);
    let (slice, stride) = read_buffer_with_accessor(&map, &gltf, &gltf.accessors[0]).unwrap();
    let vals = f32_vec(&goth_gltf::primitive_reader::read_f32(slice, stride, &gltf.accessors[0]).unwrap());
    assert_eq!(vals, vec![2.5, -7.0]);
}

#[test]
fn invalid_utf8_is_rejected() {
    let err = Gltf::from_json_bytes(&[0x7B, 0xFF, 0xFE, 0x7D]).unwrap_err();
    assert_eq!(err.kind, ErrorKind::InvalidUtf8);
}

#[test]
fn wrong_field_type_is_rejected() {
    let err = Gltf::from_json_string(r#"{"scene": "zero"}"#).unwrap_err();
    assert_eq!(err.kind, ErrorKind::WrongType);
}

#[test]
fn wrong_tuple_length_is_rejected() {
    let err = Gltf::from_json_string(r#"{"nodes": [{"translation": [1, 2]}]}"#).unwrap_err();
    assert_eq!(err.kind, ErrorKind::WrongLength);
}

#[test]
fn malformed_number_is_rejected() {
    let err = Gltf::from_json_string(r#"{"scene": 01}"#).unwrap_err();
    assert_eq!(err.kind, ErrorKind::BadNumber);
    let err2 = Gltf::from_json_string(r#"{"scene": 1.}"#).unwrap_err();
    assert_eq!(err2.kind, ErrorKind::BadNumber);
}

#[test]
fn trailing_characters_are_rejected() {
    let err = Gltf::from_json_string("{} x").unwrap_err();
    assert_eq!(err.kind, ErrorKind::TrailingCharacters);
}

#[test]
fn bad_escape_is_rejected() {
    let err = Gltf::from_json_string(r#"{"images": [{"uri": "\q"}]}"#).unwrap_err();
    assert_eq!(err.kind, ErrorKind::BadEscape);
}

#[test]
fn surrogate_pair_escapes_combine() {
    let text = "{\"images\": [{\"uri\": \"\\uD83D\\uDE00\"}]}";
    let gltf = Gltf::from_json_string(text).unwrap();
    assert_eq!(gltf.images[0].uri.as_ref().unwrap().as_str(), "\u{1F600}");
}

#[test]
fn floats_parse_to_nearest_pattern() {
    let text = r#"{"materials": [{"alphaCutoff": 0.1}],
                   "nodes": [{"scale": [3.14159265, 1e3, 2.5e-4]}]}"#;
    let gltf = Gltf::from_json_string(text).unwrap();
    assert_eq!(f32::from_bits(gltf.materials[0].alpha_cutoff).to_bits(), 0.1f32.to_bits());
    let scale = f32_vec(gltf.nodes[0].scale.as_ref().unwrap());
    assert_eq!(scale[0].to_bits(), 3.14159265f32.to_bits());
    assert_eq!(scale[1].to_bits(), 1000.0f32.to_bits());
    assert_eq!(scale[2].to_bits(), 2.5e-4f32.to_bits());
}

#[test]
fn clamped_ranges_are_observable() {
    let text = r#"{
        "bufferViews": [{"buffer": 0, "byteLength": 6}],
        "accessors": [
            {"bufferView": 0, "componentType": 5123, "count": 99, "type": "SCALAR"},
            {"bufferView": 0, "componentType": 5123, "count": 3, "type": "SCALAR"}
        ]
    }"#;
    let gltf = Gltf::from_json_string(text).unwrap();
    let mut map: HashMap<usize, Vec<u8>> = HashMap::new();
    map.insert(0usize, vec![0u8; 6]);
    let clamped = goth_gltf::primitive_reader::accessor_range_is_clamped(
        &map,
        &gltf,
        &gltf.accessors[0],
    );
    assert_eq!(clamped, Ok(true));
    let exact = goth_gltf::primitive_reader::accessor_range_is_clamped(
        &map,
        &gltf,
        &gltf.accessors[1],
    );
    assert_eq!(exact, Ok(false));
}

#[test]
fn wider_entity_coverage() {
    let text = r#"{
        "images": [{"uri": "a.png", "mimeType": "image/png"}, {"bufferView": 2}],
        "textures": [{"sampler": 0, "source": 1,
                      "extensions": {"KHR_texture_basisu": {"source": 3}}}],
        "skins": [{"inverseBindMatrices": 4, "joints": [0, 1, 2]}],
        "cameras": [{"type": "perspective",
                     "perspective": {"yfov": 0.66, "znear": 0.01}},
                    {"type": "orthographic",
                     "orthographic": {"xmag": 1, "ymag": 1, "zfar": 100, "znear": 0.1}}],
        "accessors": [{"componentType": 5123, "count": 2, "type": "SCALAR",
                       "sparse": {"count": 1,
                                  "indices": {"bufferView": 0, "componentType": 5123},
                                  "values": {"bufferView": 1}}}],
        "nodes": [{"extensions": {"MSFT_lod": {"ids": [1, 2]},
                                  "EXT_mesh_gpu_instancing": {"attributes": {
                                      "ROTATION": 0, "SCALE": 1, "TRANSLATION": 2}}},
                   "extras": {"MSFT_screencoverage": [0.5, 0.25]}}],
        "materials": [{"normalTexture": {"index": 0, "scale": 2},
                       "occlusionTexture": {"index": 1, "strength": 0.75},
                       "emissiveTexture": {"index": 2, "texCoord": 1,
                           "extensions": {"KHR_texture_transform": {
                               "offset": [0.5, 0.5], "rotation": 1.5}}},
                       "extensions": {
                           "KHR_materials_unlit": {},
                           "KHR_materials_emissive_strength": {"emissiveStrength": 4},
                           "KHR_materials_transmission": {"transmissionFactor": 0.9},
                           "KHR_materials_specular": {"specularColorFactor": [0.1, 0.2, 0.3]},
                           "KHR_materials_sheen": {"sheenRoughnessFactor": 0.4}}}]
    }"#;
    let gltf = Gltf::from_json_string(text).unwrap();
    assert_eq!(gltf.images[0].mime_type.as_ref().unwrap().as_str(), "image/png");
    assert_eq!(gltf.images[1].buffer_view, Some(2));
    let basisu = gltf.textures[0].extensions.khr_texture_basisu.as_ref().unwrap();
    assert_eq!(basisu.source, 3);
    assert_eq!(gltf.skins[0].joints, vec![0, 1, 2]);
    assert_eq!(gltf.skins[0].inverse_bind_matrices, Some(4));
    assert!(gltf.cameras[0].perspective.is_some());
    let ortho = gltf.cameras[1].orthographic.as_ref().unwrap();
    assert_eq!(f32::from_bits(ortho.zfar), 100.0);
    let sparse = gltf.accessors[0].sparse.as_ref().unwrap();
    assert_eq!(sparse.count, 1);
    assert_eq!(sparse.indices.component_type, ComponentType::UnsignedShort);
    assert_eq!(sparse.values.buffer_view, 1);
    let node_ext = &gltf.nodes[0].extensions;
    assert_eq!(node_ext.msft_lod.as_ref().unwrap().ids, vec![1, 2]);
    assert_eq!(node_ext.ext_mesh_gpu_instancing.as_ref().unwrap().attributes.translation, 2);
    let cover = gltf.nodes[0].extras.msft_screencoverage.as_ref().unwrap();
    assert_eq!(f32_vec(cover), vec![0.5, 0.25]);
    let m = &gltf.materials[0];
    assert_eq!(f32::from_bits(m.normal_texture.as_ref().unwrap().scale), 2.0);
    assert_eq!(f32::from_bits(m.occlusion_texture.as_ref().unwrap().strength), 0.75);
    let emissive = m.emissive_texture.as_ref().unwrap();
    assert_eq!(emissive.tex_coord, 1);
    let tt = emissive.extensions.khr_texture_transform.as_ref().unwrap();
    assert_eq!(f32_vec(&tt.offset), vec![0.5, 0.5]);
    assert_eq!(f32::from_bits(tt.rotation), 1.5);
    assert_eq!(f32_vec(&tt.scale), vec![1.0, 1.0]);
    let me = &m.extensions;
    assert!(me.khr_materials_unlit.is_some());
    assert_eq!(
        f32::from_bits(me.khr_materials_emissive_strength.as_ref().unwrap().emissive_strength),
        4.0
    );
    assert_eq!(
        f32::from_bits(me.khr_materials_transmission.as_ref().unwrap().transmission_factor),
        0.9
    );
    let spec = me.khr_materials_specular.as_ref().unwrap();
    assert_eq!(f32::from_bits(spec.specular_factor), 1.0);
    assert_eq!(f32_vec(&spec.specular_color_factor), vec![0.1, 0.2, 0.3]);
    let sheen = me.khr_materials_sheen.as_ref().unwrap();
    assert_eq!(f32::from_bits(sheen.sheen_roughness_factor), 0.4);
    assert_eq!(f32_vec(&sheen.sheen_color_factor), vec![0.0, 0.0, 0.0]);
}
