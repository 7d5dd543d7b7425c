//! Geometry.

use vstd::prelude::*;

use crate::math::Point2;
use crate::math::Point3;
use crate::math::Vector3;
use crate::util::bbox::spec_bbox_of;
use crate::util::bbox::OptionalBoundingBox3d;

verus! {

/// A triangulated geometry mesh: three parallel per-corner attribute arrays
/// plus per-material-slot corner index lists.
#[derive(Debug, Clone)]
pub struct GeometryMesh {
    /// Name.
    pub name: Option<String>,
    /// Positions, one per triangle corner.
    pub positions: Vec<Point3>,
    /// Normals, one per triangle corner.
    pub normals: Vec<Vector3>,
    /// UV coordinates, one per triangle corner.
    pub uv: Vec<Point2>,
    /// Corner indices grouped by mesh-local material slot; every entry indexes
    /// the three parallel arrays, and taken in (index mod 3)-triples the union
    /// of the sublists forms the triangle list.
    pub indices_per_material: Vec<Vec<u32>>,
}

impl GeometryMesh {
    /// The three attribute arrays run in parallel and every stored index is in
    /// range.
    pub open spec fn wf(self) -> bool {
        &&& self.positions@.len() == self.normals@.len()
        &&& self.positions@.len() == self.uv@.len()
        &&& forall|m: int, j: int|
            0 <= m < self.indices_per_material@.len() && 0 <= j
                < self.indices_per_material@[m]@.len()
                ==> (#[trigger] self.indices_per_material@[m]@[j]) < self.positions@.len()
    }

    /// Returns the bounding box of the submesh at the given material slot; an
    /// absent slot yields the empty box.
    pub fn bbox_submesh(&self, submesh_i: usize) -> (r: OptionalBoundingBox3d)
        requires
            self.wf(),
        ensures
            submesh_i < self.indices_per_material@.len() ==> r.spec_bbox() == spec_bbox_of(
                Seq::new(
                    self.indices_per_material@[submesh_i as int]@.len(),
                    |j: int|
                        self.positions@[self.indices_per_material@[submesh_i as int]@[j] as int],
                ),
            ),
            submesh_i >= self.indices_per_material@.len() ==> r.spec_bbox() is None,
    {
        if submesh_i >= self.indices_per_material.len() {
            return OptionalBoundingBox3d::new();
        }
        let submesh = &self.indices_per_material[submesh_i];
        let ghost pts = Seq::new(
            submesh@.len(),
            |j: int| self.positions@[submesh@[j] as int],
        );
        let mut gathered: Vec<Point3> = Vec::new();
        let mut j: usize = 0;
        while j < submesh.len()
            invariant
                j <= submesh@.len(),
                self.wf(),
                submesh == self.indices_per_material@[submesh_i as int],
                submesh_i < self.indices_per_material@.len(),
                pts == Seq::new(submesh@.len(), |k: int| self.positions@[submesh@[k] as int]),
                gathered@ =~= pts.subrange(0, j as int),
            decreases submesh@.len() - j,
        {
            let pos_i = submesh[j];
            gathered.push(self.positions[pos_i as usize]);
            j = j + 1;
        }
        proof {
            assert(pts.subrange(0, pts.len() as int) =~= pts);
        }
        OptionalBoundingBox3d::from_points(&gathered)
    }

    /// Returns the bounding box of the whole mesh.
    pub fn bbox_mesh(&self) -> (r: OptionalBoundingBox3d)
        ensures
            r.spec_bbox() == spec_bbox_of(self.positions@),
    {
        OptionalBoundingBox3d::from_points(&self.positions)
    }
}

} // verus!
