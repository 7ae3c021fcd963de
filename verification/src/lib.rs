//! Verified core of a 3D-model thumbnail renderer.
//!
//! The library turns STL, OBJ and 3MF input bytes into one normalized
//! triangle mesh (parallel vertex/normal arrays, an index list and a
//! bounding box), synthesizes smooth per-vertex normals where a source
//! lacks them, and derives the framing transform and per-frame buffer
//! layouts that a GPU backend needs.  Floating-point scalars are carried
//! as their IEEE-754 bit patterns; the float arithmetic itself is done by
//! `glam` behind small trusted wrappers, so everything around it — mesh
//! structure, index validity, bounds folding, buffer packing — is proved.
//!
//! File reading, the GPU device and the image encoder live outside this
//! crate; they hand bytes in and take bytes out.

pub mod error;
pub mod linalg;
pub mod loaders;
pub mod mesh;
pub mod render;
pub mod shader;
pub mod utils;
