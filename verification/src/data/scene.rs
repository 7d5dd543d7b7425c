//! Scene.

use vstd::prelude::*;

use crate::data::geometry::GeometryMesh;
use crate::data::material::Material;
use crate::data::mesh::Mesh;
use crate::data::texture::Texture;
use crate::util::bbox::spec_bbox_of;
use crate::util::bbox::spec_union_opt;
use crate::util::bbox::BoundingBox3d;
use crate::util::bbox::OptionalBoundingBox3d;

verus! {

/// The bounds of every geometry mesh combined, in order; `None` when no mesh
/// holds a point.
pub open spec fn spec_scene_bounds(gs: Seq<GeometryMesh>) -> Option<BoundingBox3d>
    decreases gs.len(),
{
    if gs.len() == 0 {
        Option::None
    } else {
        spec_union_opt(spec_scene_bounds(gs.drop_last()), spec_bbox_of(gs.last().positions@))
    }
}

/// Index of a geometry mesh inside one [`Scene`].
#[derive(Debug, Clone, Copy, PartialEq, Eq, Structural)]
pub struct GeometryMeshIndex(pub u32);

/// Index of a material inside one [`Scene`].
#[derive(Debug, Clone, Copy, PartialEq, Eq, Structural)]
pub struct MaterialIndex(pub u32);

/// Index of a mesh inside one [`Scene`].
#[derive(Debug, Clone, Copy, PartialEq, Eq, Structural)]
pub struct MeshIndex(pub u32);

/// Index of a texture inside one [`Scene`].
#[derive(Debug, Clone, Copy, PartialEq, Eq, Structural)]
pub struct TextureIndex(pub u32);

impl GeometryMeshIndex {
    /// Creates a new index.
    pub(crate) fn new(i: usize) -> (r: GeometryMeshIndex)
        requires
            i <= u32::MAX,
        ensures
            r.0 == i,
    {
        GeometryMeshIndex(i as u32)
    }

    /// Returns the `usize` value.
    pub fn to_usize(self) -> (r: usize)
        ensures
            r == self.0,
    {
        self.0 as usize
    }
}

impl MaterialIndex {
    /// Creates a new index.
    pub(crate) fn new(i: usize) -> (r: MaterialIndex)
        requires
            i <= u32::MAX,
        ensures
            r.0 == i,
    {
        MaterialIndex(i as u32)
    }

    /// Returns the `usize` value.
    pub fn to_usize(self) -> (r: usize)
        ensures
            r == self.0,
    {
        self.0 as usize
    }
}

impl MeshIndex {
    /// Creates a new index.
    pub(crate) fn new(i: usize) -> (r: MeshIndex)
        requires
            i <= u32::MAX,
        ensures
            r.0 == i,
    {
        MeshIndex(i as u32)
    }

    /// Returns the `usize` value.
    pub fn to_usize(self) -> (r: usize)
        ensures
            r == self.0,
    {
        self.0 as usize
    }
}

impl TextureIndex {
    /// Creates a new index.
    pub(crate) fn new(i: usize) -> (r: TextureIndex)
        requires
            i <= u32::MAX,
        ensures
            r.0 == i,
    {
        TextureIndex(i as u32)
    }

    /// Returns the `usize` value.
    pub fn to_usize(self) -> (r: usize)
        ensures
            r == self.0,
    {
        self.0 as usize
    }
}

/// A loaded scene: append-only arenas of geometry meshes, materials, meshes
/// and textures, referenced from one another only through indices.
#[derive(Debug, Clone)]
pub struct Scene {
    /// Scene name.
    pub name: Option<String>,
    /// Geometry meshes.
    pub geometry_meshes: Vec<GeometryMesh>,
    /// Materials.
    pub materials: Vec<Material>,
    /// Meshes.
    pub meshes: Vec<Mesh>,
    /// Textures.
    pub textures: Vec<Texture>,
}

impl Scene {
    /// Every stored entity is well formed and every stored index points inside
    /// its own arena.
    pub open spec fn wf(self) -> bool {
        &&& forall|i: int|
            0 <= i < self.geometry_meshes@.len() ==> (#[trigger] self.geometry_meshes@[i]).wf()
        &&& forall|i: int| 0 <= i < self.textures@.len() ==> (#[trigger] self.textures@[i]).wf()
        &&& forall|i: int|
            0 <= i < self.meshes@.len() ==> (#[trigger] self.meshes@[i]).geometry_mesh_index.0
                < self.geometry_meshes@.len()
        &&& forall|i: int, j: int|
            0 <= i < self.meshes@.len() && 0 <= j < self.meshes@[i].materials@.len() ==> (
            #[trigger] self.meshes@[i].materials@[j]).0 < self.materials@.len()
        &&& forall|i: int|
            0 <= i < self.materials@.len() ==> match (#[trigger] self.materials@[i]).diffuse_texture {
                Option::Some(t) => t.0 < self.textures@.len(),
                Option::None => true,
            }
    }

    /// Creates a new, empty `Scene`.
    pub fn new() -> (r: Scene)
        ensures
            r.name is None,
            r.geometry_meshes@.len() == 0,
            r.materials@.len() == 0,
            r.meshes@.len() == 0,
            r.textures@.len() == 0,
    {
        Scene {
            name: Option::None,
            geometry_meshes: Vec::new(),
            materials: Vec::new(),
            meshes: Vec::new(),
            textures: Vec::new(),
        }
    }

    /// Sets the scene name.
    pub fn set_name(&mut self, name: Option<String>)
        ensures
            final(self).name == name,
            final(self).geometry_meshes == old(self).geometry_meshes,
            final(self).materials == old(self).materials,
            final(self).meshes == old(self).meshes,
            final(self).textures == old(self).textures,
    {
        self.name = name;
    }

    /// Appends a geometry mesh and returns its index.
    pub(crate) fn add_geometry_mesh(&mut self, mesh: GeometryMesh) -> (r: GeometryMeshIndex)
        requires
            old(self).geometry_meshes@.len() < u32::MAX,
        ensures
            r.0 == old(self).geometry_meshes@.len(),
            final(self).geometry_meshes@ == old(self).geometry_meshes@.push(mesh),
            final(self).name == old(self).name,
            final(self).materials == old(self).materials,
            final(self).meshes == old(self).meshes,
            final(self).textures == old(self).textures,
    {
        let index = GeometryMeshIndex::new(self.geometry_meshes.len());
        self.geometry_meshes.push(mesh);
        index
    }

    /// Returns the geometry meshes.
    pub fn geometry_meshes(&self) -> (r: &Vec<GeometryMesh>)
        ensures
            r == self.geometry_meshes,
    {
        &self.geometry_meshes
    }

    /// Returns a reference to the geometry mesh at the given index.
    pub fn geometry_mesh(&self, i: GeometryMeshIndex) -> (r: Option<&GeometryMesh>)
        ensures
            i.0 < self.geometry_meshes@.len() ==> r == Option::Some(
                &self.geometry_meshes@[i.0 as int],
            ),
            i.0 >= self.geometry_meshes@.len() ==> r is None,
    {
        if i.to_usize() < self.geometry_meshes.len() {
            Option::Some(&self.geometry_meshes[i.to_usize()])
        } else {
            Option::None
        }
    }

    /// Appends a material and returns its index.
    pub(crate) fn add_material(&mut self, material: Material) -> (r: MaterialIndex)
        requires
            old(self).materials@.len() < u32::MAX,
        ensures
            r.0 == old(self).materials@.len(),
            final(self).materials@ == old(self).materials@.push(material),
            final(self).name == old(self).name,
            final(self).geometry_meshes == old(self).geometry_meshes,
            final(self).meshes == old(self).meshes,
            final(self).textures == old(self).textures,
    {
        let index = MaterialIndex::new(self.materials.len());
        self.materials.push(material);
        index
    }

    /// Returns the materials.
    pub fn materials(&self) -> (r: &Vec<Material>)
        ensures
            r == self.materials,
    {
        &self.materials
    }

    /// Returns a reference to the material at the given index.
    pub fn material(&self, i: MaterialIndex) -> (r: Option<&Material>)
        ensures
            i.0 < self.materials@.len() ==> r == Option::Some(&self.materials@[i.0 as int]),
            i.0 >= self.materials@.len() ==> r is None,
    {
        if i.to_usize() < self.materials.len() {
            Option::Some(&self.materials[i.to_usize()])
        } else {
            Option::None
        }
    }

    /// Appends a mesh and returns its index.
    pub(crate) fn add_mesh(&mut self, mesh: Mesh) -> (r: MeshIndex)
        requires
            old(self).meshes@.len() < u32::MAX,
        ensures
            r.0 == old(self).meshes@.len(),
            final(self).meshes@ == old(self).meshes@.push(mesh),
            final(self).name == old(self).name,
            final(self).geometry_meshes == old(self).geometry_meshes,
            final(self).materials == old(self).materials,
            final(self).textures == old(self).textures,
    {
        let index = MeshIndex::new(self.meshes.len());
        self.meshes.push(mesh);
        index
    }

    /// Returns the meshes.
    pub fn meshes(&self) -> (r: &Vec<Mesh>)
        ensures
            r == self.meshes,
    {
        &self.meshes
    }

    /// Returns a reference to the mesh at the given index.
    pub fn mesh(&self, i: MeshIndex) -> (r: Option<&Mesh>)
        ensures
            i.0 < self.meshes@.len() ==> r == Option::Some(&self.meshes@[i.0 as int]),
            i.0 >= self.meshes@.len() ==> r is None,
    {
        if i.to_usize() < self.meshes.len() {
            Option::Some(&self.meshes[i.to_usize()])
        } else {
            Option::None
        }
    }

    /// Appends a texture and returns its index.
    pub(crate) fn add_texture(&mut self, texture: Texture) -> (r: TextureIndex)
        requires
            old(self).textures@.len() < u32::MAX,
        ensures
            r.0 == old(self).textures@.len(),
            final(self).textures@ == old(self).textures@.push(texture),
            final(self).name == old(self).name,
            final(self).geometry_meshes == old(self).geometry_meshes,
            final(self).materials == old(self).materials,
            final(self).meshes == old(self).meshes,
    {
        let index = TextureIndex::new(self.textures.len());
        self.textures.push(texture);
        index
    }

    /// Returns the textures.
    pub fn textures(&self) -> (r: &Vec<Texture>)
        ensures
            r == self.textures,
    {
        &self.textures
    }

    /// Returns the bounding box of every geometry mesh combined; an empty
    /// scene yields the explicit empty bound rather than a degenerate box.
    pub fn bbox(&self) -> (r: OptionalBoundingBox3d)
        ensures
            r.spec_bbox() == spec_scene_bounds(self.geometry_meshes@),
    {
        let mut acc = OptionalBoundingBox3d::new();
        let mut i: usize = 0;
        while i < self.geometry_meshes.len()
            invariant
                i <= self.geometry_meshes@.len(),
                acc.spec_bbox() == spec_scene_bounds(self.geometry_meshes@.subrange(0, i as int)),
            decreases self.geometry_meshes@.len() - i,
        {
            proof {
                assert(self.geometry_meshes@.subrange(0, i as int + 1).drop_last()
                    =~= self.geometry_meshes@.subrange(0, i as int));
                assert(self.geometry_meshes@.subrange(0, i as int + 1).last()
                    == self.geometry_meshes@[i as int]);
            }
            acc = acc.union(&self.geometry_meshes[i].bbox_mesh());
            i = i + 1;
        }
        proof {
            assert(self.geometry_meshes@.subrange(0, self.geometry_meshes@.len() as int)
                =~= self.geometry_meshes@);
        }
        acc
    }

    /// Returns a reference to the texture at the given index.
    pub fn texture(&self, i: TextureIndex) -> (r: Option<&Texture>)
        ensures
            i.0 < self.textures@.len() ==> r == Option::Some(&self.textures@[i.0 as int]),
            i.0 >= self.textures@.len() ==> r is None,
    {
        if i.to_usize() < self.textures.len() {
            Option::Some(&self.textures[i.to_usize()])
        } else {
            Option::None
        }
    }
}

} // verus!
