//! The typed document model: entities mirroring the format's JSON object
//! graph, the integer scalar codecs, and the two derived operations the
//! entities offer (node transform resolution and the accessor byte-length
//! rule).
//!
//! Cross-references between entities are plain indices into the sibling
//! sequences; the model performs no range validation, which is deferred to
//! the consumers that follow the indices.  Real-number fields hold IEEE-754
//! single-precision bit patterns.

use vstd::prelude::*;
use crate::extensions::{
    RootExtensions, BufferExtensions, NodeExtensions, NodeExtras, TextureExtensions,
    BufferViewExtensions, MaterialExtensions, TextureInfoExtensions,
};

verus! {

/// Bit pattern of one, used by several defaults.
pub const ONE_BITS: u32 = 0x3F80_0000;

/// Bit pattern of one half, the default alpha cutoff.
pub const HALF_BITS: u32 = 0x3F00_0000;

/// Bit pattern of three halves, the default index of refraction.
pub const THREE_HALVES_BITS: u32 = 0x3FC0_0000;

/// Bit pattern of a quarter turn of pi, the default outer cone angle.
pub const QUARTER_PI_BITS: u32 = 0x3F49_0FDB;

/// The numeric kind of one component of an accessor element.
#[derive(Debug, Clone, Copy, PartialEq, Eq, Structural)]
pub enum ComponentType {
    UnsignedByte,
    Byte,
    UnsignedShort,
    Short,
    UnsignedInt,
    Float,
}

impl ComponentType {
    /// The wire code of this component type.
    pub open spec fn spec_code(self) -> u64 {
        match self {
            ComponentType::Byte => 5120,
            ComponentType::UnsignedByte => 5121,
            ComponentType::Short => 5122,
            ComponentType::UnsignedShort => 5123,
            ComponentType::UnsignedInt => 5125,
            ComponentType::Float => 5126,
        }
    }

    /// The component type a wire code decodes to, if any.
    pub open spec fn spec_from_code(code: u64) -> Option<ComponentType> {
        if code == 5120 {
            Some(ComponentType::Byte)
        } else if code == 5121 {
            Some(ComponentType::UnsignedByte)
        } else if code == 5122 {
            Some(ComponentType::Short)
        } else if code == 5123 {
            Some(ComponentType::UnsignedShort)
        } else if code == 5125 {
            Some(ComponentType::UnsignedInt)
        } else if code == 5126 {
            Some(ComponentType::Float)
        } else {
            None
        }
    }

    /// Decodes a wire code; every code outside the table is refused.
    pub fn from_code(code: u64) -> (r: Option<ComponentType>)
        ensures
            r == ComponentType::spec_from_code(code),
    {
        if code == 5120 {
            Some(ComponentType::Byte)
        } else if code == 5121 {
            Some(ComponentType::UnsignedByte)
        } else if code == 5122 {
            Some(ComponentType::Short)
        } else if code == 5123 {
            Some(ComponentType::UnsignedShort)
        } else if code == 5125 {
            Some(ComponentType::UnsignedInt)
        } else if code == 5126 {
            Some(ComponentType::Float)
        } else {
            None
        }
    }

    /// Width of one component in bytes.
    pub open spec fn spec_byte_size(self) -> int {
        match self {
            ComponentType::UnsignedByte | ComponentType::Byte => 1,
            ComponentType::UnsignedShort | ComponentType::Short => 2,
            ComponentType::UnsignedInt | ComponentType::Float => 4,
        }
    }

    /// Width of one component in bytes.
    pub fn byte_size(&self) -> (r: usize)
        ensures
            r as int == self.spec_byte_size(),
    {
        match self {
            ComponentType::UnsignedByte | ComponentType::Byte => 1,
            ComponentType::UnsignedShort | ComponentType::Short => 2,
            ComponentType::UnsignedInt | ComponentType::Float => 4,
        }
    }
}

/// Every wire code decodes to exactly the component type that carries it,
/// and a code outside the six-entry table decodes to nothing.
pub proof fn lemma_component_type_codec(code: u64)
    ensures
        match ComponentType::spec_from_code(code) {
            Some(ct) => ct.spec_code() == code,
            None => forall|ct: ComponentType| #[trigger] ct.spec_code() != code,
        },
        ComponentType::spec_from_code(code) is Some <==> (code == 5120 || code == 5121 || code
            == 5122 || code == 5123 || code == 5125 || code == 5126),
{
}

/// Every component type survives the round trip through its wire code.
pub proof fn lemma_component_type_round_trip(ct: ComponentType)
    ensures
        ComponentType::spec_from_code(ct.spec_code()) == Some(ct),
{
}

/// The structural shape of one accessor element.
#[derive(Debug, Clone, Copy, PartialEq, Eq, Structural)]
pub enum AccessorType {
    Scalar,
    Vec2,
    Vec3,
    Vec4,
    Mat2,
    Mat3,
    Mat4,
}

impl AccessorType {
    /// Number of components of one element of this shape.
    pub open spec fn spec_num_components(self) -> int {
        match self {
            AccessorType::Scalar => 1,
            AccessorType::Vec2 => 2,
            AccessorType::Vec3 => 3,
            AccessorType::Vec4 | AccessorType::Mat2 => 4,
            AccessorType::Mat3 => 9,
            AccessorType::Mat4 => 16,
        }
    }

    /// Number of components of one element of this shape.
    pub fn num_components(&self) -> (r: usize)
        ensures
            r as int == self.spec_num_components(),
    {
        match self {
            AccessorType::Scalar => 1,
            AccessorType::Vec2 => 2,
            AccessorType::Vec3 => 3,
            AccessorType::Vec4 | AccessorType::Mat2 => 4,
            AccessorType::Mat3 => 9,
            AccessorType::Mat4 => 16,
        }
    }
}

/// A texture filter.
#[derive(Debug, Clone, Copy, PartialEq, Eq, Structural)]
pub enum FilterMode {
    Nearest,
    Linear,
}

impl FilterMode {
    pub open spec fn spec_from_code(code: u64) -> Option<FilterMode> {
        if code == 9728 {
            Some(FilterMode::Nearest)
        } else if code == 9729 {
            Some(FilterMode::Linear)
        } else {
            None
        }
    }

    /// Decodes a magnification filter's wire code.
    pub fn from_code(code: u64) -> (r: Option<FilterMode>)
        ensures
            r == FilterMode::spec_from_code(code),
    {
        if code == 9728 {
            Some(FilterMode::Nearest)
        } else if code == 9729 {
            Some(FilterMode::Linear)
        } else {
            None
        }
    }
}

/// The two magnification codes decode to the two filters and nothing else
/// decodes.
pub proof fn lemma_filter_mode_codec(code: u64)
    ensures
        FilterMode::spec_from_code(code) == Some(FilterMode::Nearest) <==> code == 9728,
        FilterMode::spec_from_code(code) == Some(FilterMode::Linear) <==> code == 9729,
        FilterMode::spec_from_code(code) is Some <==> (code == 9728 || code == 9729),
{
}

/// A minification filter: a base filter and an optional mipmap filter, both
/// packed into one wire code.
#[derive(Debug, Clone, Copy, PartialEq, Eq, Structural)]
pub struct MinFilter {
    pub mode: FilterMode,
    pub mipmap: Option<FilterMode>,
}

impl MinFilter {
    /// The six wire codes cover the two base filters crossed with {no
    /// mipmapping, nearest mipmap, linear mipmap}.
    pub open spec fn spec_from_code(code: u64) -> Option<MinFilter> {
        if code == 9728 {
            Some(MinFilter { mode: FilterMode::Nearest, mipmap: None })
        } else if code == 9729 {
            Some(MinFilter { mode: FilterMode::Linear, mipmap: None })
        } else if code == 9984 {
            Some(MinFilter { mode: FilterMode::Nearest, mipmap: Some(FilterMode::Nearest) })
        } else if code == 9985 {
            Some(MinFilter { mode: FilterMode::Linear, mipmap: Some(FilterMode::Nearest) })
        } else if code == 9986 {
            Some(MinFilter { mode: FilterMode::Nearest, mipmap: Some(FilterMode::Linear) })
        } else if code == 9987 {
            Some(MinFilter { mode: FilterMode::Linear, mipmap: Some(FilterMode::Linear) })
        } else {
            None
        }
    }

    /// Decodes a minification filter's wire code, splitting it into the base
    /// filter and the optional mipmap filter.
    pub fn from_code(code: u64) -> (r: Option<MinFilter>)
        ensures
            r == MinFilter::spec_from_code(code),
    {
        if code == 9728 {
            Some(MinFilter { mode: FilterMode::Nearest, mipmap: None })
        } else if code == 9729 {
            Some(MinFilter { mode: FilterMode::Linear, mipmap: None })
        } else if code == 9984 {
            Some(MinFilter { mode: FilterMode::Nearest, mipmap: Some(FilterMode::Nearest) })
        } else if code == 9985 {
            Some(MinFilter { mode: FilterMode::Linear, mipmap: Some(FilterMode::Nearest) })
        } else if code == 9986 {
            Some(MinFilter { mode: FilterMode::Nearest, mipmap: Some(FilterMode::Linear) })
        } else if code == 9987 {
            Some(MinFilter { mode: FilterMode::Linear, mipmap: Some(FilterMode::Linear) })
        } else {
            None
        }
    }
}

/// The six minification codes decode to six distinct filter pairs, and
/// nothing else decodes.
pub proof fn lemma_min_filter_codec(code: u64)
    ensures
        MinFilter::spec_from_code(code) is Some <==> (9728 <= code <= 9729 || 9984 <= code <= 9987),
        forall|other: u64|
            code != other && MinFilter::spec_from_code(code) is Some ==> #[trigger] MinFilter::spec_from_code(other)
                != MinFilter::spec_from_code(code),
{
}

/// A texture wrap rule.
#[derive(Debug, Clone, Copy, PartialEq, Eq, Structural)]
pub enum SamplerWrap {
    ClampToEdge,
    MirroredRepeat,
    Repeat,
}

impl SamplerWrap {
    pub open spec fn spec_code(self) -> u64 {
        match self {
            SamplerWrap::ClampToEdge => 33071,
            SamplerWrap::MirroredRepeat => 33648,
            SamplerWrap::Repeat => 10497,
        }
    }

    pub open spec fn spec_from_code(code: u64) -> Option<SamplerWrap> {
        if code == 33071 {
            Some(SamplerWrap::ClampToEdge)
        } else if code == 33648 {
            Some(SamplerWrap::MirroredRepeat)
        } else if code == 10497 {
            Some(SamplerWrap::Repeat)
        } else {
            None
        }
    }

    /// Decodes a wrap rule's wire code.
    pub fn from_code(code: u64) -> (r: Option<SamplerWrap>)
        ensures
            r == SamplerWrap::spec_from_code(code),
    {
        if code == 33071 {
            Some(SamplerWrap::ClampToEdge)
        } else if code == 33648 {
            Some(SamplerWrap::MirroredRepeat)
        } else if code == 10497 {
            Some(SamplerWrap::Repeat)
        } else {
            None
        }
    }
}

impl Default for SamplerWrap {
    /// Absent wrap rules default to repetition.
    fn default() -> (r: Self)
        ensures
            r == SamplerWrap::Repeat,
    {
        SamplerWrap::Repeat
    }
}

/// Every wrap rule survives the round trip through its wire code, and a code
/// outside the three-entry table decodes to nothing.
pub proof fn lemma_sampler_wrap_codec(code: u64)
    ensures
        match SamplerWrap::spec_from_code(code) {
            Some(w) => w.spec_code() == code,
            None => forall|w: SamplerWrap| #[trigger] w.spec_code() != code,
        },
        SamplerWrap::spec_from_code(code) is Some <==> (code == 33071 || code == 33648 || code
            == 10497),
{
}

pub proof fn lemma_sampler_wrap_round_trip(w: SamplerWrap)
    ensures
        SamplerWrap::spec_from_code(w.spec_code()) == Some(w),
{
}

/// The topology a primitive's vertices describe.
#[derive(Debug, Clone, Copy, PartialEq, Eq, Structural)]
pub enum PrimitiveMode {
    Points,
    Lines,
    LineLoop,
    LineStrip,
    Triangles,
    TriangleStrip,
    TriangleFan,
}

impl PrimitiveMode {
    pub open spec fn spec_code(self) -> u64 {
        match self {
            PrimitiveMode::Points => 0,
            PrimitiveMode::Lines => 1,
            PrimitiveMode::LineLoop => 2,
            PrimitiveMode::LineStrip => 3,
            PrimitiveMode::Triangles => 4,
            PrimitiveMode::TriangleStrip => 5,
            PrimitiveMode::TriangleFan => 6,
        }
    }

    pub open spec fn spec_from_code(code: u64) -> Option<PrimitiveMode> {
        if code == 0 {
            Some(PrimitiveMode::Points)
        } else if code == 1 {
            Some(PrimitiveMode::Lines)
        } else if code == 2 {
            Some(PrimitiveMode::LineLoop)
        } else if code == 3 {
            Some(PrimitiveMode::LineStrip)
        } else if code == 4 {
            Some(PrimitiveMode::Triangles)
        } else if code == 5 {
            Some(PrimitiveMode::TriangleStrip)
        } else if code == 6 {
            Some(PrimitiveMode::TriangleFan)
        } else {
            None
        }
    }

    /// Decodes a topology's wire code.
    pub fn from_code(code: u64) -> (r: Option<PrimitiveMode>)
        ensures
            r == PrimitiveMode::spec_from_code(code),
    {
        if code == 0 {
            Some(PrimitiveMode::Points)
        } else if code == 1 {
            Some(PrimitiveMode::Lines)
        } else if code == 2 {
            Some(PrimitiveMode::LineLoop)
        } else if code == 3 {
            Some(PrimitiveMode::LineStrip)
        } else if code == 4 {
            Some(PrimitiveMode::Triangles)
        } else if code == 5 {
            Some(PrimitiveMode::TriangleStrip)
        } else if code == 6 {
            Some(PrimitiveMode::TriangleFan)
        } else {
            None
        }
    }
}

impl Default for PrimitiveMode {
    /// Absent topologies default to triangles.
    fn default() -> (r: Self)
        ensures
            r == PrimitiveMode::Triangles,
    {
        PrimitiveMode::Triangles
    }
}

/// Every topology survives the round trip through its wire code, and a code
/// beyond the seven-entry table decodes to nothing.
pub proof fn lemma_primitive_mode_codec(code: u64)
    ensures
        match PrimitiveMode::spec_from_code(code) {
            Some(m) => m.spec_code() == code,
            None => forall|m: PrimitiveMode| #[trigger] m.spec_code() != code,
        },
        PrimitiveMode::spec_from_code(code) is Some <==> code <= 6,
{
}

pub proof fn lemma_primitive_mode_round_trip(m: PrimitiveMode)
    ensures
        PrimitiveMode::spec_from_code(m.spec_code()) == Some(m),
{
}

/// How an animation sampler interpolates between keyframes.
#[derive(Debug, Clone, Copy, PartialEq, Eq, Structural)]
pub enum Interpolation {
    Linear,
    Step,
    CubicSpline,
}

impl Default for Interpolation {
    /// Absent interpolations default to linear.
    fn default() -> (r: Self)
        ensures
            r == Interpolation::Linear,
    {
        Interpolation::Linear
    }
}

/// Which node property an animation channel drives.
#[derive(Debug, Clone, Copy, PartialEq, Eq, Structural)]
pub enum TargetPath {
    Translation,
    Rotation,
    Scale,
    Weights,
}

/// How a material's alpha value is interpreted.
#[derive(Debug, Clone, Copy, PartialEq, Eq, Structural)]
pub enum AlphaMode {
    Opaque,
    Mask,
    Blend,
}

impl Default for AlphaMode {
    /// Absent alpha modes default to opaque.
    fn default() -> (r: Self)
        ensures
            r == AlphaMode::Opaque,
    {
        AlphaMode::Opaque
    }
}

/// Whether a camera projects with perspective.
#[derive(Debug, Clone, Copy, PartialEq, Eq, Structural)]
pub enum CameraType {
    Perspective,
    Orthographic,
}

/// An opaque byte blob, referenced by locator or supplied by the container's
/// binary chunk; the model never owns its content.
#[derive(Debug, Clone, PartialEq, Eq)]
pub struct Buffer {
    pub uri: Option<String>,
    pub byte_length: usize,
    pub extensions: BufferExtensions,
}

/// A byte sub-range of a buffer, optionally with a fixed element stride.
#[derive(Debug, Clone, PartialEq, Eq)]
pub struct BufferView {
    pub buffer: usize,
    pub byte_offset: usize,
    pub byte_length: usize,
    pub byte_stride: Option<usize>,
    pub extensions: BufferViewExtensions,
}

/// How to reinterpret a buffer view's bytes as a typed array.
#[derive(Debug, Clone, PartialEq, Eq)]
pub struct Accessor {
    pub buffer_view: Option<usize>,
    pub byte_offset: usize,
    pub component_type: ComponentType,
    pub normalized: bool,
    pub count: usize,
    pub accessor_type: AccessorType,
    pub sparse: Option<Sparse>,
    /// Lower bounds per component, as bit patterns; length depends on shape.
    pub min: Option<Vec<u32>>,
    /// Upper bounds per component, as bit patterns; length depends on shape.
    pub max: Option<Vec<u32>>,
}

impl Accessor {
    /// The natural size of one element: component width times component
    /// count.
    pub open spec fn spec_natural_stride(&self) -> int {
        self.component_type.spec_byte_size() * self.accessor_type.spec_num_components()
    }

    /// Total bytes the accessor covers: its count times the view's declared
    /// stride, or times the natural element size when the view declares none.
    pub open spec fn spec_byte_length(&self, buffer_view: &BufferView) -> int {
        self.count * (match buffer_view.byte_stride {
            Some(s) => s as int,
            None => self.spec_natural_stride(),
        })
    }

    /// Total bytes the accessor covers within the given view.
    pub fn byte_length(&self, buffer_view: &BufferView) -> (r: usize)
        requires
            self.spec_byte_length(buffer_view) <= usize::MAX,
        ensures
            r as int == self.spec_byte_length(buffer_view),
    {
        let stride: usize = match buffer_view.byte_stride {
            Some(s) => s,
            None => {
                let w = self.component_type.byte_size();
                let n = self.accessor_type.num_components();
                proof {
                    assert(w * n <= 64) by (nonlinear_arith)
                        requires
                            w as int <= 4,
                            n as int <= 16,
                            0 <= w,
                            0 <= n,
                    ;
                    assert(self.count * ((w * n) as int) <= usize::MAX);
                    if w * n > 0 {
                        assert(self.count <= self.count * ((w * n) as int)) by (nonlinear_arith)
                            requires
                                1 <= (w * n) as int,
                                0 <= self.count,
                        ;
                    }
                }
                w * n
            },
        };
        proof {
            if stride > 0 {
                assert(self.count <= self.count * (stride as int)) by (nonlinear_arith)
                    requires
                        1 <= stride as int,
                        0 <= self.count,
                ;
            } else {
                assert(self.count * 0int == 0) by (nonlinear_arith);
            }
        }
        self.count * stride
    }
}

/// The accessor byte-length invariant: with no declared stride, the length
/// is exactly count times component width times component count, for every
/// component type and every shape.
pub proof fn lemma_accessor_natural_byte_length(a: &Accessor, v: &BufferView)
    requires
        v.byte_stride is None,
    ensures
        a.spec_byte_length(v) == a.count * a.component_type.spec_byte_size()
            * a.accessor_type.spec_num_components(),
{
    assert(a.count * (a.component_type.spec_byte_size() * a.accessor_type.spec_num_components())
        == a.count * a.component_type.spec_byte_size() * a.accessor_type.spec_num_components())
        by (nonlinear_arith);
}

/// A sparse override set: a count of patched elements, where their indices
/// come from, and where their values come from.
#[derive(Debug, Clone, PartialEq, Eq)]
pub struct Sparse {
    pub count: usize,
    pub indices: SparseIndices,
    pub values: SparseValues,
}

#[derive(Debug, Clone, PartialEq, Eq)]
pub struct SparseIndices {
    pub buffer_view: usize,
    pub byte_offset: usize,
    pub component_type: ComponentType,
}

#[derive(Debug, Clone, PartialEq, Eq)]
pub struct SparseValues {
    pub buffer_view: usize,
    pub byte_offset: usize,
}

/// A picture, by locator or by buffer view.
#[derive(Debug, Clone, PartialEq, Eq)]
pub struct Image {
    pub uri: Option<String>,
    pub mime_type: Option<String>,
    pub buffer_view: Option<usize>,
}

/// A sampled reference to an image.
#[derive(Debug, Clone, PartialEq, Eq)]
pub struct Texture {
    pub sampler: Option<usize>,
    pub source: Option<usize>,
    pub extensions: TextureExtensions,
}

/// Filtering and wrapping rules for texture lookups.
#[derive(Debug, Clone, PartialEq, Eq)]
pub struct Sampler {
    pub mag_filter: Option<FilterMode>,
    pub min_filter: Option<MinFilter>,
    pub wrap_s: SamplerWrap,
    pub wrap_t: SamplerWrap,
}

/// A reference from a material to a texture plus a coordinate-set choice.
#[derive(Debug, Clone, PartialEq, Eq)]
pub struct TextureInfo {
    pub index: usize,
    pub tex_coord: usize,
    pub extensions: TextureInfoExtensions,
}

/// A texture reference with a normal-scale factor.
#[derive(Debug, Clone, PartialEq, Eq)]
pub struct NormalTextureInfo {
    pub index: usize,
    pub tex_coord: usize,
    /// Bit pattern; defaults to one.
    pub scale: u32,
    pub extensions: TextureInfoExtensions,
}

/// A texture reference with an occlusion-strength factor.
#[derive(Debug, Clone, PartialEq, Eq)]
pub struct OcclusionTextureInfo {
    pub index: usize,
    pub tex_coord: usize,
    /// Bit pattern; defaults to one.
    pub strength: u32,
    pub extensions: TextureInfoExtensions,
}

/// The metallic-roughness parameter bag of a material.
#[derive(Debug, Clone, PartialEq, Eq)]
pub struct PbrMetallicRoughness {
    /// Four bit patterns; defaults to opaque white.
    pub base_color_factor: Vec<u32>,
    pub base_color_texture: Option<TextureInfo>,
    /// Bit pattern; defaults to one.
    pub metallic_factor: u32,
    /// Bit pattern; defaults to one.
    pub roughness_factor: u32,
    pub metallic_roughness_texture: Option<TextureInfo>,
}

impl PbrMetallicRoughness {
    pub open spec fn wf(&self) -> bool {
        self.base_color_factor@.len() == 4
    }
}

impl Default for PbrMetallicRoughness {
    /// An absent parameter bag: opaque white, fully metallic, fully rough,
    /// no textures.
    fn default() -> (r: Self)
        ensures
            r.base_color_factor@ == seq![ONE_BITS, ONE_BITS, ONE_BITS, ONE_BITS],
            r.base_color_texture is None,
            r.metallic_factor == ONE_BITS,
            r.roughness_factor == ONE_BITS,
            r.metallic_roughness_texture is None,
    {
        let mut base_color_factor: Vec<u32> = Vec::new();
        base_color_factor.push(ONE_BITS);
        base_color_factor.push(ONE_BITS);
        base_color_factor.push(ONE_BITS);
        base_color_factor.push(ONE_BITS);
        proof {
            assert(base_color_factor@ =~= seq![ONE_BITS, ONE_BITS, ONE_BITS, ONE_BITS]);
        }
        PbrMetallicRoughness {
            base_color_factor,
            base_color_texture: None,
            metallic_factor: ONE_BITS,
            roughness_factor: ONE_BITS,
            metallic_roughness_texture: None,
        }
    }
}

/// A surface description.
#[derive(Debug, Clone, PartialEq, Eq)]
pub struct Material {
    pub pbr_metallic_roughness: PbrMetallicRoughness,
    pub normal_texture: Option<NormalTextureInfo>,
    pub occlusion_texture: Option<OcclusionTextureInfo>,
    pub emissive_texture: Option<TextureInfo>,
    /// Three bit patterns; defaults to black.
    pub emissive_factor: Vec<u32>,
    pub alpha_mode: AlphaMode,
    /// Bit pattern; defaults to one half.
    pub alpha_cutoff: u32,
    pub double_sided: bool,
    pub extensions: MaterialExtensions,
}

impl Material {
    pub open spec fn wf(&self) -> bool {
        self.emissive_factor@.len() == 3 && self.pbr_metallic_roughness.wf()
    }
}

/// The fixed vocabulary of vertex attributes a primitive can carry, each an
/// optional accessor index.
#[derive(Debug, Clone, PartialEq, Eq)]
pub struct Attributes {
    pub position: Option<usize>,
    pub tangent: Option<usize>,
    pub normal: Option<usize>,
    pub texcoord_0: Option<usize>,
    pub texcoord_1: Option<usize>,
    pub joints_0: Option<usize>,
    pub weights_0: Option<usize>,
}

/// One drawable piece of a mesh.
#[derive(Debug, Clone, PartialEq, Eq)]
pub struct Primitive {
    pub attributes: Attributes,
    pub indices: Option<usize>,
    pub material: Option<usize>,
    pub mode: PrimitiveMode,
    pub targets: Option<Vec<Attributes>>,
}

/// A list of primitives with optional morph-target weights.
#[derive(Debug, Clone, PartialEq, Eq)]
pub struct Mesh {
    pub primitives: Vec<Primitive>,
    /// Bit patterns, one per morph target.
    pub weights: Option<Vec<u32>>,
}

/// A scene-graph node: index links to its content and children, and a local
/// transform given either as a matrix or as separate parts.
#[derive(Debug, Clone, PartialEq, Eq)]
pub struct Node {
    pub camera: Option<usize>,
    pub children: Vec<usize>,
    pub skin: Option<usize>,
    /// Sixteen bit patterns in column-major order, when given as a matrix.
    pub matrix: Option<Vec<u32>>,
    pub mesh: Option<usize>,
    /// Four bit patterns: a unit quaternion.
    pub rotation: Option<Vec<u32>>,
    /// Three bit patterns.
    pub scale: Option<Vec<u32>>,
    /// Three bit patterns.
    pub translation: Option<Vec<u32>>,
    pub extensions: NodeExtensions,
    pub extras: NodeExtras,
}

impl Node {
    pub open spec fn wf(&self) -> bool {
        &&& (self.matrix matches Some(m) ==> m@.len() == 16)
        &&& (self.rotation matches Some(r) ==> r@.len() == 4)
        &&& (self.scale matches Some(s) ==> s@.len() == 3)
        &&& (self.translation matches Some(t) ==> t@.len() == 3)
    }

    /// Resolves which transform representation is active.  Discrete parts
    /// win over a matrix when all three are present; a matrix wins over a
    /// partial set of parts; with no matrix, each absent part takes its
    /// identity value.
    pub fn transform(&self) -> (t: NodeTransform)
        ensures
            ({
                let full = self.translation is Some && self.rotation is Some && self.scale is Some;
                if self.matrix is Some && !full {
                    t matches NodeTransform::Matrix(m) && m@ == self.matrix->Some_0@
                } else {
                    t matches NodeTransform::Decomposed { translation, rotation, scale } && translation@
                        == (match self.translation {
                        Some(v) => v@,
                        None => seq![0u32, 0u32, 0u32],
                    }) && rotation@ == (match self.rotation {
                        Some(v) => v@,
                        None => seq![0u32, 0u32, 0u32, ONE_BITS],
                    }) && scale@ == (match self.scale {
                        Some(v) => v@,
                        None => seq![ONE_BITS, ONE_BITS, ONE_BITS],
                    })
                }
            }),
    {
        let full = self.translation.is_some() && self.rotation.is_some() && self.scale.is_some();
        if self.matrix.is_some() && !full {
            let m = self.matrix.as_ref().unwrap();
            NodeTransform::Matrix(m.clone())
        } else {
            let translation = match &self.translation {
                Some(v) => v.clone(),
                None => {
                    let mut d: Vec<u32> = Vec::new();
                    d.push(0);
                    d.push(0);
                    d.push(0);
                    proof {
                        assert(d@ =~= seq![0u32, 0u32, 0u32]);
                    }
                    d
                },
            };
            let rotation = match &self.rotation {
                Some(v) => v.clone(),
                None => {
                    let mut d: Vec<u32> = Vec::new();
                    d.push(0);
                    d.push(0);
                    d.push(0);
                    d.push(ONE_BITS);
                    proof {
                        assert(d@ =~= seq![0u32, 0u32, 0u32, ONE_BITS]);
                    }
                    d
                },
            };
            let scale = match &self.scale {
                Some(v) => v.clone(),
                None => {
                    let mut d: Vec<u32> = Vec::new();
                    d.push(ONE_BITS);
                    d.push(ONE_BITS);
                    d.push(ONE_BITS);
                    proof {
                        assert(d@ =~= seq![ONE_BITS, ONE_BITS, ONE_BITS]);
                    }
                    d
                },
            };
            NodeTransform::Decomposed { translation, rotation, scale }
        }
    }
}

/// A resolved node transform: either a verbatim matrix or the discrete
/// translation, rotation and scale, all as bit patterns.
#[derive(Debug, Clone, PartialEq, Eq)]
pub enum NodeTransform {
    Matrix(Vec<u32>),
    Decomposed { translation: Vec<u32>, rotation: Vec<u32>, scale: Vec<u32> },
}

/// One keyframe animation.
#[derive(Debug, Clone, PartialEq, Eq)]
pub struct Animation {
    pub channels: Vec<Channel>,
    pub samplers: Vec<AnimationSampler>,
}

/// Connects an animation sampler to the node property it drives.
#[derive(Debug, Clone, PartialEq, Eq)]
pub struct Channel {
    pub sampler: usize,
    pub target: Target,
}

#[derive(Debug, Clone, PartialEq, Eq)]
pub struct Target {
    pub node: Option<usize>,
    pub path: TargetPath,
}

/// Keyframe input and output accessors plus the interpolation rule.
#[derive(Debug, Clone, PartialEq, Eq)]
pub struct AnimationSampler {
    pub input: usize,
    pub interpolation: Interpolation,
    pub output: usize,
}

/// Joints and inverse bind matrices of a skinned mesh.
#[derive(Debug, Clone, PartialEq, Eq)]
pub struct Skin {
    pub inverse_bind_matrices: Option<usize>,
    pub skeleton: Option<usize>,
    pub joints: Vec<usize>,
}

/// A camera, one of two projection kinds.
#[derive(Debug, Clone, PartialEq, Eq)]
pub struct Camera {
    pub perspective: Option<CameraPerspective>,
    pub orthographic: Option<CameraOrthographic>,
    pub ty: CameraType,
}

/// Perspective parameters, as bit patterns.
#[derive(Debug, Clone, Copy, PartialEq, Eq)]
pub struct CameraPerspective {
    pub yfov: u32,
    pub znear: u32,
    pub zfar: Option<u32>,
    pub aspect_ratio: Option<u32>,
}

/// Orthographic parameters, as bit patterns.
#[derive(Debug, Clone, Copy, PartialEq, Eq)]
pub struct CameraOrthographic {
    pub xmag: u32,
    pub ymag: u32,
    pub zfar: u32,
    pub znear: u32,
}

/// The root nodes of one scene.
#[derive(Debug, Clone, PartialEq, Eq)]
pub struct Scene {
    pub nodes: Vec<usize>,
}

impl Gltf {
    /// The model's length invariants: every node's transform parts and every
    /// material's factor tuples have their fixed widths.  The loader
    /// establishes this for every document it returns (see
    /// [`crate::loader::lemma_loaded_document_well_formed`]).
    pub open spec fn wf(&self) -> bool {
        &&& forall|i: int| 0 <= i < self.nodes@.len() ==> (#[trigger] self.nodes@[i]).wf()
        &&& forall|i: int|
            0 <= i < self.materials@.len() ==> (#[trigger] self.materials@[i]).wf()
    }
}

/// A parsed document: the ordered entity sequences, the root extensions and
/// the default scene index.
#[derive(Debug, Clone, PartialEq, Eq)]
pub struct Gltf {
    pub images: Vec<Image>,
    pub textures: Vec<Texture>,
    pub materials: Vec<Material>,
    pub buffers: Vec<Buffer>,
    pub buffer_views: Vec<BufferView>,
    pub accessors: Vec<Accessor>,
    pub meshes: Vec<Mesh>,
    pub animations: Vec<Animation>,
    pub nodes: Vec<Node>,
    pub skins: Vec<Skin>,
    pub samplers: Vec<Sampler>,
    pub cameras: Vec<Camera>,
    pub extensions: RootExtensions,
    pub scenes: Vec<Scene>,
    pub scene: usize,
}

} // verus!
