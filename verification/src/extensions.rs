//! The catalog of optional extension substructures the document model can
//! carry, and the per-attachment-point containers that hold them.
//!
//! Every extension is independently optional: absent from the JSON object, it
//! is `None`; present, it is parsed into its own typed value.  Real-number
//! fields hold IEEE-754 single-precision bit patterns (see [`crate::fbits`]).

use vstd::prelude::*;
use crate::model::TextureInfo;

verus! {

/// A texture that uses a supercompressed image source.
#[derive(Debug, Clone, Copy, PartialEq, Eq)]
pub struct KhrTextureBasisu {
    pub source: usize,
}

/// An affine transform applied to texture coordinates.
#[derive(Debug, Clone, PartialEq, Eq)]
pub struct KhrTextureTransform {
    /// Two bit patterns; defaults to zero offset.
    pub offset: Vec<u32>,
    /// Rotation in radians, as a bit pattern; defaults to zero.
    pub rotation: u32,
    /// Two bit patterns; defaults to one in both axes.
    pub scale: Vec<u32>,
    pub tex_coord: usize,
}

impl KhrTextureTransform {
    pub open spec fn wf(&self) -> bool {
        self.offset@.len() == 2 && self.scale@.len() == 2
    }
}

/// A sheen layer on a material.
#[derive(Debug, Clone, PartialEq, Eq)]
pub struct KhrMaterialsSheen {
    /// Three bit patterns; defaults to black.
    pub sheen_color_factor: Vec<u32>,
    pub sheen_color_texture: Option<TextureInfo>,
    /// Bit pattern; defaults to zero.
    pub sheen_roughness_factor: u32,
    pub sheen_roughness_texture: Option<TextureInfo>,
}

impl KhrMaterialsSheen {
    pub open spec fn wf(&self) -> bool {
        self.sheen_color_factor@.len() == 3
    }
}

/// A scale on a material's emissive strength.
#[derive(Debug, Clone, Copy, PartialEq, Eq)]
pub struct KhrMaterialsEmissiveStrength {
    /// Bit pattern; defaults to one.
    pub emissive_strength: u32,
}

/// Marks a material as unlit; carries no fields.
#[derive(Debug, Clone, Copy, PartialEq, Eq)]
pub struct KhrMaterialsUnlit {}

/// The root-level list of punctual lights.
#[derive(Debug, Clone, PartialEq, Eq)]
pub struct KhrLightsPunctual {
    pub lights: Vec<Light>,
}

/// One punctual light.
#[derive(Debug, Clone, PartialEq, Eq)]
pub struct Light {
    /// Three bit patterns; defaults to white.
    pub color: Vec<u32>,
    /// Bit pattern; defaults to one.
    pub intensity: u32,
    pub ty: LightType,
    pub spot: Option<LightSpot>,
}

impl Light {
    pub open spec fn wf(&self) -> bool {
        self.color@.len() == 3
    }
}

#[derive(Debug, Clone, Copy, PartialEq, Eq, Structural)]
pub enum LightType {
    Point,
    Directional,
    Spot,
}

/// The cone of a spot light.
#[derive(Debug, Clone, Copy, PartialEq, Eq)]
pub struct LightSpot {
    /// Bit pattern; defaults to zero.
    pub inner_cone_angle: u32,
    /// Bit pattern; defaults to a quarter turn of pi.
    pub outer_cone_angle: u32,
}

/// A material's index of refraction.
#[derive(Debug, Clone, Copy, PartialEq, Eq)]
pub struct KhrMaterialsIor {
    /// Bit pattern; defaults to one and a half.
    pub ior: u32,
}

/// A specular layer on a material.
#[derive(Debug, Clone, PartialEq, Eq)]
pub struct KhrMaterialsSpecular {
    /// Bit pattern; defaults to one.
    pub specular_factor: u32,
    pub specular_texture: Option<TextureInfo>,
    /// Three bit patterns; defaults to white.
    pub specular_color_factor: Vec<u32>,
    pub specular_color_texture: Option<TextureInfo>,
}

impl KhrMaterialsSpecular {
    pub open spec fn wf(&self) -> bool {
        self.specular_color_factor@.len() == 3
    }
}

/// A transmission layer on a material.
#[derive(Debug, Clone, PartialEq, Eq)]
pub struct KhrMaterialsTransmission {
    /// Bit pattern; defaults to zero.
    pub transmission_factor: u32,
    pub transmission_texture: Option<TextureInfo>,
}

/// A buffer view that is itself a compressed blob; supersedes the view's
/// declared length and stride.
#[derive(Debug, Clone, Copy, PartialEq, Eq)]
pub struct ExtMeshoptCompression {
    pub buffer: usize,
    pub byte_offset: usize,
    pub byte_length: usize,
    pub byte_stride: usize,
    pub mode: CompressionMode,
    pub count: usize,
    pub filter: CompressionFilter,
}

#[derive(Debug, Clone, Copy, PartialEq, Eq, Structural)]
pub enum CompressionMode {
    Attributes,
    Triangles,
    Indices,
}

#[derive(Debug, Clone, Copy, PartialEq, Eq, Structural)]
pub enum CompressionFilter {
    NoFilter,
    Octahedral,
    Quaternion,
    Exponential,
}

impl Default for CompressionFilter {
    fn default() -> (r: Self)
        ensures
            r == CompressionFilter::NoFilter,
    {
        CompressionFilter::NoFilter
    }
}

/// Marks a buffer as a fallback target of compressed views.
#[derive(Debug, Clone, Copy, PartialEq, Eq)]
pub struct ExtMeshoptCompressionBuffer {
    pub fallback: bool,
}

/// Per-node instancing attribute accessors.
#[derive(Debug, Clone, Copy, PartialEq, Eq)]
pub struct ExtMeshGpuInstancing {
    pub attributes: ExtMeshGpuInstancingAttributes,
}

#[derive(Debug, Clone, Copy, PartialEq, Eq)]
pub struct ExtMeshGpuInstancingAttributes {
    pub rotation: usize,
    pub scale: usize,
    pub translation: usize,
}

/// Levels of detail for a node, as indices of coarser nodes.
#[derive(Debug, Clone, PartialEq, Eq)]
pub struct MsftLod {
    pub ids: Vec<usize>,
}

/// Extensions attached to the document root.
#[derive(Debug, Clone, PartialEq, Eq, Default)]
pub struct RootExtensions {
    pub khr_lights_punctual: Option<KhrLightsPunctual>,
}

/// Extensions attached to a buffer.
#[derive(Debug, Clone, Copy, PartialEq, Eq, Default)]
pub struct BufferExtensions {
    pub ext_meshopt_compression: Option<ExtMeshoptCompressionBuffer>,
}

/// Extensions attached to a node.
#[derive(Debug, Clone, PartialEq, Eq, Default)]
pub struct NodeExtensions {
    pub ext_mesh_gpu_instancing: Option<ExtMeshGpuInstancing>,
    pub msft_lod: Option<MsftLod>,
}

/// Application-specific extras attached to a node.
#[derive(Debug, Clone, PartialEq, Eq, Default)]
pub struct NodeExtras {
    /// Screen coverage thresholds, as bit patterns.
    pub msft_screencoverage: Option<Vec<u32>>,
}

/// Extensions attached to a texture.
#[derive(Debug, Clone, Copy, PartialEq, Eq, Default)]
pub struct TextureExtensions {
    pub khr_texture_basisu: Option<KhrTextureBasisu>,
}

/// Extensions attached to a buffer view.
#[derive(Debug, Clone, Copy, PartialEq, Eq, Default)]
pub struct BufferViewExtensions {
    pub ext_meshopt_compression: Option<ExtMeshoptCompression>,
}

/// Extensions attached to a material.
#[derive(Debug, Clone, PartialEq, Eq, Default)]
pub struct MaterialExtensions {
    pub khr_materials_sheen: Option<KhrMaterialsSheen>,
    pub khr_materials_emissive_strength: Option<KhrMaterialsEmissiveStrength>,
    pub khr_materials_unlit: Option<KhrMaterialsUnlit>,
    pub khr_materials_ior: Option<KhrMaterialsIor>,
    pub khr_materials_specular: Option<KhrMaterialsSpecular>,
    pub khr_materials_transmission: Option<KhrMaterialsTransmission>,
}

/// Extensions attached to a texture reference.
#[derive(Debug, Clone, PartialEq, Eq, Default)]
pub struct TextureInfoExtensions {
    pub khr_texture_transform: Option<KhrTextureTransform>,
}

} // verus!
