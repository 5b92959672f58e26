//! Scalar codec round trips and the accessor byte-length rule.

use goth_gltf::model::{ComponentType, AccessorType, FilterMode, MinFilter, SamplerWrap,
    PrimitiveMode, Accessor, BufferView};
use goth_gltf::extensions::BufferViewExtensions;

fn all_component_types() -> Vec<ComponentType> {
    vec![
        ComponentType::Byte,
        ComponentType::UnsignedByte,
        ComponentType::Short,
        ComponentType::UnsignedShort,
        ComponentType::UnsignedInt,
        ComponentType::Float,
    ]
}

fn all_accessor_types() -> Vec<AccessorType> {
    vec![
        AccessorType::Scalar,
        AccessorType::Vec2,
        AccessorType::Vec3,
        AccessorType::Vec4,
        AccessorType::Mat2,
        AccessorType::Mat3,
        AccessorType::Mat4,
    ]
}

fn component_code(ct: ComponentType) -> u64 {
    match ct {
        ComponentType::Byte => 5120,
        ComponentType::UnsignedByte => 5121,
        ComponentType::Short => 5122,
        ComponentType::UnsignedShort => 5123,
        ComponentType::UnsignedInt => 5125,
        ComponentType::Float => 5126,
    }
}

#[test]
fn component_type_codes_round_trip() {
    for ct in all_component_types() {
        assert_eq!(ComponentType::from_code(component_code(ct)), Some(ct));
    }
    assert_eq!(ComponentType::from_code(5126), Some(ComponentType::Float));
    assert_eq!(ComponentType::from_code(9999), None);
    assert_eq!(ComponentType::from_code(5124), None);
    assert_eq!(ComponentType::from_code(0), None);
}

#[test]
fn component_sizes() {
    assert_eq!(ComponentType::Byte.byte_size(), 1);
    assert_eq!(ComponentType::UnsignedByte.byte_size(), 1);
    assert_eq!(ComponentType::Short.byte_size(), 2);
    assert_eq!(ComponentType::UnsignedShort.byte_size(), 2);
    assert_eq!(ComponentType::UnsignedInt.byte_size(), 4);
    assert_eq!(ComponentType::Float.byte_size(), 4);
}

#[test]
fn accessor_type_component_counts() {
    assert_eq!(AccessorType::Scalar.num_components(), 1);
    assert_eq!(AccessorType::Vec2.num_components(), 2);
    assert_eq!(AccessorType::Vec3.num_components(), 3);
    assert_eq!(AccessorType::Vec4.num_components(), 4);
    assert_eq!(AccessorType::Mat2.num_components(), 4);
    assert_eq!(AccessorType::Mat3.num_components(), 9);
    assert_eq!(AccessorType::Mat4.num_components(), 16);
}

#[test]
fn filter_codes_round_trip() {
    assert_eq!(FilterMode::from_code(9728), Some(FilterMode::Nearest));
    assert_eq!(FilterMode::from_code(9729), Some(FilterMode::Linear));
    assert_eq!(FilterMode::from_code(9730), None);
    let table: Vec<(u64, FilterMode, Option<FilterMode>)> = vec![
        (9728, FilterMode::Nearest, None),
        (9729, FilterMode::Linear, None),
        (9984, FilterMode::Nearest, Some(FilterMode::Nearest)),
        (9985, FilterMode::Linear, Some(FilterMode::Nearest)),
        (9986, FilterMode::Nearest, Some(FilterMode::Linear)),
        (9987, FilterMode::Linear, Some(FilterMode::Linear)),
    ];
    for (code, mode, mipmap) in table {
        assert_eq!(MinFilter::from_code(code), Some(MinFilter { mode, mipmap }));
    }
    assert_eq!(MinFilter::from_code(9983), None);
    assert_eq!(MinFilter::from_code(9988), None);
}

#[test]
fn wrap_codes_round_trip() {
    assert_eq!(SamplerWrap::from_code(33071), Some(SamplerWrap::ClampToEdge));
    assert_eq!(SamplerWrap::from_code(33648), Some(SamplerWrap::MirroredRepeat));
    assert_eq!(SamplerWrap::from_code(10497), Some(SamplerWrap::Repeat));
    assert_eq!(SamplerWrap::from_code(10498), None);
    assert_eq!(SamplerWrap::from_code(0), None);
}

#[test]
fn primitive_mode_codes_round_trip() {
    let table: Vec<(u64, PrimitiveMode)> = vec![
        (0, PrimitiveMode::Points),
        (1, PrimitiveMode::Lines),
        (2, PrimitiveMode::LineLoop),
        (3, PrimitiveMode::LineStrip),
        (4, PrimitiveMode::Triangles),
        (5, PrimitiveMode::TriangleStrip),
        (6, PrimitiveMode::TriangleFan),
    ];
    for (code, mode) in table {
        assert_eq!(PrimitiveMode::from_code(code), Some(mode));
    }
    assert_eq!(PrimitiveMode::from_code(7), None);
}

fn accessor_with(ct: ComponentType, at: AccessorType, count: usize) -> Accessor {
    Accessor {
        buffer_view: Some(0),
        byte_offset: 0,
        component_type: ct,
        normalized: false,
        count,
        accessor_type: at,
        sparse: None,
        min: None,
        max: None,
    }
}

fn view_with_stride(byte_stride: Option<usize>) -> BufferView {
    BufferView {
        buffer: 0,
        byte_offset: 0,
        byte_length: 0,
        byte_stride,
        extensions: BufferViewExtensions { ext_meshopt_compression: None },
    }
}

#[test]
fn byte_length_natural_all_combinations() {
    // with no declared stride the byte length is count * width * arity, for
    // every component type crossed with every shape
    let view = view_with_stride(None);
    for ct in all_component_types() {
        for at in all_accessor_types() {
            let a = accessor_with(ct, at, 7);
            let expect = 7 * ct.byte_size() * at.num_components();
            assert_eq!(a.byte_length(&view), expect);
        }
    }
}

#[test]
fn byte_length_declared_stride_wins() {
    let view = view_with_stride(Some(24));
    let a = accessor_with(ComponentType::Float, AccessorType::Vec3, 5);
    assert_eq!(a.byte_length(&view), 5 * 24);
}
