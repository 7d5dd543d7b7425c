//! FBX scene extraction library.
//!
//! The library turns a scene-graph document (meshes, materials, textures and
//! layered per-vertex attributes) into a flat, renderer-agnostic [`data::Scene`]:
//! polygons are triangulated, attribute layers are resolved per triangle
//! corner, embedded images are decoded, and objects shared between meshes are
//! deduplicated by document object identity.
//!
//! Geometry is carried in fixed-point integer coordinates (see [`math`]), so
//! that every geometric decision made here is exact.

pub use self::cli_opt::CliOpt;

mod cli_opt;
pub mod data;
pub mod error;
pub mod fbx;
pub mod math;
pub mod util;
