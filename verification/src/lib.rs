//! Convert Roblox model files into render-agnostic glTF and GLB assets.
//!
//! This crate holds the verified core of the converter: the decoded-mesh
//! cache format, the union and mesh payload decoders, the GLB container
//! framing, asset identifier parsing, and the cache bookkeeping of the
//! export pipeline. Floating-point mesh data is carried as IEEE-754 bit
//! patterns so that every byte the library writes is accounted for.

pub mod bytes;
pub mod csg;
pub mod export;
pub mod gltf;
pub mod geometry;
pub mod materials;
pub mod metadata;
pub mod model;
pub mod paths;
pub mod pipeline;
pub mod plan;
pub mod payload;
pub mod text;
