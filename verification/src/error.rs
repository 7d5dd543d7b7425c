//! Load-time errors.

use vstd::prelude::*;

verus! {

/// An error raised while extracting a scene from a document.
///
/// Every failure of the pipeline is propagated, never silently recovered.
#[derive(Debug, Clone, Copy, PartialEq, Eq, Structural)]
pub enum Error {
    /// A polygon has fewer than 3 vertices.
    InvalidPolygon,
    /// An n-gon (n >= 5) has two or more concave vertices on both turn
    /// classes; triangulation declines rather than guesses.
    UnsupportedPolygon,
    /// A requested per-vertex attribute layer (normal / UV / material) is
    /// absent on the mesh.
    MissingLayer,
    /// A resolved index (control point, layer content, material slot) exceeds
    /// its collection's bounds.
    IndexOutOfRange,
    /// Resolved positions / normals / UV arrays differ in length after
    /// triangulation.
    LengthMismatch,
    /// A material's shading model is neither Lambert nor Phong.
    UnsupportedShadingModel,
    /// A texture references non-embedded media.
    NoEmbeddedImage,
    /// A property or object could not be read from the underlying document.
    DocumentAccessError,
    /// Embedded image bytes could not be decoded.
    ImageDecode,
}

} // verus!
