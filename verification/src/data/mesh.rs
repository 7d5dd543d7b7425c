//! Mesh.

use vstd::prelude::*;

use crate::data::scene::GeometryMeshIndex;
use crate::data::scene::MaterialIndex;

verus! {

/// A mesh: one geometry plus its mesh-local material slot table.
#[derive(Debug, Clone)]
pub struct Mesh {
    /// Name.
    pub name: Option<String>,
    /// Geometry mesh index.
    pub geometry_mesh_index: GeometryMeshIndex,
    /// Mesh-local material slot to scene material index mapping: slot `i`
    /// corresponds to sublist `i` of the referenced geometry's
    /// `indices_per_material`.
    pub materials: Vec<MaterialIndex>,
}

impl Mesh {
    /// Returns the geometry mesh index.
    pub fn geometry_mesh_index(&self) -> (r: GeometryMeshIndex)
        ensures
            r == self.geometry_mesh_index,
    {
        self.geometry_mesh_index
    }
}

} // verus!
