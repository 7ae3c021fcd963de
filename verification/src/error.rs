//! Error taxonomy: load-time errors and render-time errors.

use vstd::prelude::*;

verus! {

/// Everything that can go wrong while turning input bytes into a mesh.
///
/// Variants carrying a `String` hold the message of the underlying parser
/// or decoder failure.
#[derive(Debug, Clone, PartialEq, Eq)]
pub enum MeshError {
    /// The STL decoder failed (it reports I/O-style errors for malformed
    /// data and truncated input alike).
    Io(String),
    /// The OBJ loader failed.
    Obj(String),
    /// The 3MF reader failed (bad archive or bad model document).
    Threemf(String),
    /// The file name's extension names no supported format.
    UnsupportedFormat,
    /// STL data whose triangle list cannot be indexed (too many faces for
    /// 32-bit indices).
    InvalidStl(String),
    /// OBJ data whose accumulated vertex count cannot be indexed with
    /// 32-bit indices.
    InvalidObj(String),
    /// 3MF data with an out-of-range vertex reference or too many
    /// triangles for 32-bit indices.
    InvalidThreemf(String),
    /// The source parsed but contained zero triangles.
    EmptyMesh,
    /// No object in any 3MF model carried mesh data.
    NoMeshData,
    /// Every loaded vertex sits on one point, so the bounding box has zero
    /// extent on all axes and no framing scale exists.  Such input is
    /// rejected at load time.
    DegenerateBounds,
}

impl MeshError {
    /// A short human-readable description; messages of the underlying
    /// decoders are returned as they came.
    pub fn describe(&self) -> (r: String)
        ensures
            self matches MeshError::Io(m) ==> r@ == m@,
            self matches MeshError::Obj(m) ==> r@ == m@,
            self matches MeshError::Threemf(m) ==> r@ == m@,
            self matches MeshError::InvalidStl(m) ==> r@ == m@,
            self matches MeshError::InvalidObj(m) ==> r@ == m@,
            self matches MeshError::InvalidThreemf(m) ==> r@ == m@,
    {
        match self {
            MeshError::Io(m) => m.clone(),
            MeshError::Obj(m) => m.clone(),
            MeshError::Threemf(m) => m.clone(),
            MeshError::InvalidStl(m) => m.clone(),
            MeshError::InvalidObj(m) => m.clone(),
            MeshError::InvalidThreemf(m) => m.clone(),
            MeshError::UnsupportedFormat => "unsupported model format".to_owned(),
            MeshError::EmptyMesh => "empty mesh".to_owned(),
            MeshError::NoMeshData => "no mesh data found".to_owned(),
            MeshError::DegenerateBounds => "bounding box has zero extent".to_owned(),
        }
    }
}

/// Everything that can go wrong while rendering a frame.
#[derive(Debug, Clone, PartialEq, Eq)]
pub enum RenderError {
    /// The GPU backend refused the adapter or device request.
    Wgpu(String),
    /// A render operation failed (buffer mapping, or an index count
    /// beyond the 32-bit range).
    RenderError(String),
}

impl RenderError {
    /// A short human-readable description.
    pub fn describe(&self) -> (r: String)
        ensures
            self matches RenderError::Wgpu(m) ==> r@ == m@,
            self matches RenderError::RenderError(m) ==> r@ == m@,
    {
        match self {
            RenderError::Wgpu(m) => m.clone(),
            RenderError::RenderError(m) => m.clone(),
        }
    }
}

} // verus!
