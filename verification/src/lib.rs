//! A low-level, fully verified reader for a JSON + binary-buffer 3D scene
//! interchange format: container framing, a typed document model, and a
//! typed accessor decoder.
//!
//! The crate parses either file variant into the [`model::Gltf`] document
//! model, whose every field is pinned by contract to the input text, and
//! decodes accessor byte ranges into typed numeric arrays under the
//! format's component-type, normalization and stride rules.
//!
//! Floating-point values never appear in this crate; every such value is
//! represented by its IEEE-754 single-precision bit pattern (`u32`), and
//! the bit patterns themselves are produced by verified integer arithmetic
//! (see [`fbits`]).

pub mod container;
pub mod extensions;
pub mod fbits;
pub mod glxf;
pub mod json;
pub mod loader;
pub mod model;
pub mod primitive_reader;

pub use container::ParseError;
pub use glxf::{Glxf, Asset, AssetTransform};
pub use json::ErrorKind;
pub use model::{
    Gltf, Buffer, BufferView, Accessor, Sparse, SparseIndices, SparseValues, Mesh, Primitive,
    PrimitiveMode, Attributes, Image, Texture, Sampler, FilterMode, MinFilter, SamplerWrap,
    Material, AlphaMode, PbrMetallicRoughness, TextureInfo, NormalTextureInfo,
    OcclusionTextureInfo, Node, NodeTransform, Camera, CameraPerspective, CameraOrthographic,
    CameraType, Scene, Skin, Animation, Channel, Target, AnimationSampler, Interpolation,
    TargetPath, ComponentType, AccessorType,
};
pub use primitive_reader::{
    PrimitiveReader, Error, ReaderKind, MeshOptCompressionExtension, read_buffer_with_accessor,
    read_f32, read_f32x2, read_f32x3, read_f32x4, read_u32, read_u32x4, byte_stride,
};
