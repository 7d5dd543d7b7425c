//! Scene extraction from a v7400-style document-object model.
//!
//! The [`Loader`] walks all mesh-model objects of a [`document::Document`],
//! builds geometry meshes, materials and textures for each, and assembles a
//! [`Scene`]. Every document object is loaded at most once: an
//! identity-to-index cache per entity kind is consulted before any load, so
//! objects shared between meshes map to one scene entity.

pub mod decode;
pub mod document;
pub mod layer;
pub mod triangulator;

use std::collections::HashMap;

use vstd::prelude::*;

use crate::data::DecodedImage;
use crate::data::GeometryMesh;
use crate::data::GeometryMeshIndex;
use crate::data::LambertData;
use crate::data::Material;
use crate::data::MaterialIndex;
use crate::data::Mesh;
use crate::data::MeshIndex;
use crate::data::Scene;
use crate::data::ShadingData;
use crate::data::Texture;
use crate::data::TextureIndex;
use crate::data::WrapMode;
use crate::error::Error;
use crate::fbx::v7400::decode::decode_image;
use crate::fbx::v7400::decode::decode_tga_image;
use crate::fbx::v7400::decode::filename_is_tga;
use crate::fbx::v7400::decode::image_decoding;
use crate::fbx::v7400::decode::spec_is_tga;
use crate::fbx::v7400::decode::tga_decoding;
use crate::fbx::v7400::document::Document;
use crate::fbx::v7400::document::GeometryData;
use crate::fbx::v7400::document::LayerElementMaterial;
use crate::fbx::v7400::document::LayerElementNormal;
use crate::fbx::v7400::document::LayerElementUv;
use crate::fbx::v7400::document::MappingMode;
use crate::fbx::v7400::document::RawWrapMode;
use crate::fbx::v7400::layer::resolve_material;
use crate::fbx::v7400::layer::resolve_normal;
use crate::fbx::v7400::layer::resolve_uv;
use crate::fbx::v7400::layer::spec_resolve_material;
use crate::fbx::v7400::layer::spec_resolve_normal;
use crate::fbx::v7400::layer::spec_resolve_uv;
use crate::fbx::v7400::triangulator::get_point;
use crate::fbx::v7400::triangulator::point_at;
use crate::fbx::v7400::triangulator::pvi_ok;
use crate::fbx::v7400::triangulator::spec_triangulation;
use crate::fbx::v7400::triangulator::triangulate_each;
use crate::fbx::v7400::triangulator::lemma_triangulate_from_len;
use crate::math::Point2;
use crate::math::Point3;
use crate::math::Vector3;

verus! {

broadcast use vstd::std_specs::hash::group_hash_axioms, vstd::seq_lib::seq_to_set_is_finite;

/// The raw wrap mode translated to the renderer-agnostic one.
pub open spec fn spec_wrap(m: RawWrapMode) -> WrapMode {
    match m {
        RawWrapMode::Repeat => WrapMode::Repeat,
        RawWrapMode::Clamp => WrapMode::ClampToEdge,
    }
}

/// Every entry of `old` survives unchanged in `new`.
pub open spec fn map_extends(new: Map<i64, u32>, old: Map<i64, u32>) -> bool {
    forall|k: i64| #[trigger] old.contains_key(k) ==> new.contains_key(k) && new[k] == old[k]
}

/// The video clip `vid` exists, is embedded, and its bytes decode under the
/// decoder its filename extension selects.
pub open spec fn spec_clip_decodable(doc: Document, vid: i64) -> bool {
    exists|i: int|
        0 <= i < doc.video_clips@.len() && (#[trigger] doc.video_clips@[i]).id == vid && {
            let v = doc.video_clips@[i];
            match v.content {
                Option::Some(bytes) => if spec_is_tga(v.relative_filename@) {
                    tga_decoding(bytes@) is Some
                } else {
                    image_decoding(bytes@) is Some
                },
                Option::None => false,
            }
        }
}

/// The video clip `vid` exists but references external, non-embedded media.
pub open spec fn spec_clip_missing_content(doc: Document, vid: i64) -> bool {
    exists|i: int|
        0 <= i < doc.video_clips@.len() && (#[trigger] doc.video_clips@[i]).id == vid
            && doc.video_clips@[i].content is None
}

/// The video clip `vid` exists with embedded bytes that the decoder its
/// filename extension selects cannot decode.
pub open spec fn spec_clip_undecodable(doc: Document, vid: i64) -> bool {
    exists|i: int|
        0 <= i < doc.video_clips@.len() && (#[trigger] doc.video_clips@[i]).id == vid && {
            let v = doc.video_clips@[i];
            match v.content {
                Option::Some(bytes) => if spec_is_tga(v.relative_filename@) {
                    tga_decoding(bytes@) is None
                } else {
                    image_decoding(bytes@) is None
                },
                Option::None => false,
            }
        }
}

/// The clip id a texture load reaches: `Some(vid)` when the texture exists
/// with both wrap modes readable and a linked video clip, `None` otherwise.
pub open spec fn spec_texture_clip(doc: Document, tid: i64) -> Option<i64> {
    if exists|i: int|
        0 <= i < doc.textures@.len() && (#[trigger] doc.textures@[i]).id == tid
            && doc.textures@[i].wrap_mode_u is Some && doc.textures@[i].wrap_mode_v is Some
            && doc.textures@[i].video_clip_id is Some {
        let i = choose|i: int|
            0 <= i < doc.textures@.len() && (#[trigger] doc.textures@[i]).id == tid
                && doc.textures@[i].wrap_mode_u is Some && doc.textures@[i].wrap_mode_v is Some
                && doc.textures@[i].video_clip_id is Some;
        doc.textures@[i].video_clip_id
    } else {
        Option::None
    }
}

/// The texture `tid` exists with readable wrap modes and a decodable embedded
/// clip, so loading it is owed to succeed.
pub open spec fn spec_texture_loadable(doc: Document, tid: i64) -> bool {
    exists|i: int|
        0 <= i < doc.textures@.len() && (#[trigger] doc.textures@[i]).id == tid && {
            let t = doc.textures@[i];
            &&& t.wrap_mode_u is Some
            &&& t.wrap_mode_v is Some
            &&& match t.video_clip_id {
                Option::Some(vid) => spec_clip_decodable(doc, vid),
                Option::None => false,
            }
        }
}

/// A bound on a cache: every key is an id of the given collection, so the
/// cache can never outgrow it.
proof fn lemma_cache_len_bound(m: Map<i64, u32>, ids: Seq<i64>)
    requires
        forall|k: i64| #[trigger] m.contains_key(k) ==> ids.contains(k),
    ensures
        m.len() <= ids.len(),
{
    assert(m.dom().subset_of(ids.to_set()));
    ids.lemma_cardinality_of_set();
    vstd::set_lib::lemma_len_subset(m.dom(), ids.to_set());
}

/// The scene loader: the scene under construction plus one identity-to-index
/// cache per entity kind.
pub struct Loader {
    /// Scene under construction.
    pub scene: Scene,
    /// Geometry mesh indices by document object id.
    pub geometry_mesh_indices: HashMap<i64, u32>,
    /// Material indices by document object id.
    pub material_indices: HashMap<i64, u32>,
    /// Mesh indices by document object id.
    pub mesh_indices: HashMap<i64, u32>,
    /// Texture indices by document object id.
    pub texture_indices: HashMap<i64, u32>,
}

impl Loader {
    /// The scene is well formed and each cache is an injection-sized record
    /// of its arena: one entry per issued index, every key a document id,
    /// every value in range.
    pub open spec fn wf(self, doc: Document) -> bool {
        &&& self.scene.wf()
        &&& self.geometry_mesh_indices@.dom().finite()
        &&& self.scene.geometry_meshes@.len() == self.geometry_mesh_indices@.len()
        &&& forall|k: i64| #[trigger]
            self.geometry_mesh_indices@.contains_key(k) ==> doc.geometry_ids().contains(k) && (
            self.geometry_mesh_indices@[k] as int) < self.scene.geometry_meshes@.len()
        &&& self.material_indices@.dom().finite()
        &&& self.scene.materials@.len() == self.material_indices@.len()
        &&& forall|k: i64| #[trigger]
            self.material_indices@.contains_key(k) ==> doc.material_ids().contains(k) && (
            self.material_indices@[k] as int) < self.scene.materials@.len()
        &&& self.mesh_indices@.dom().finite()
        &&& self.scene.meshes@.len() == self.mesh_indices@.len()
        &&& forall|k: i64| #[trigger]
            self.mesh_indices@.contains_key(k) ==> doc.model_ids().contains(k) && (
            self.mesh_indices@[k] as int) < self.scene.meshes@.len()
        &&& self.texture_indices@.dom().finite()
        &&& self.scene.textures@.len() == self.texture_indices@.len()
        &&& forall|k: i64| #[trigger]
            self.texture_indices@.contains_key(k) ==> doc.texture_ids().contains(k) && (
            self.texture_indices@[k] as int) < self.scene.textures@.len()
    }

    /// Creates a loader with an empty scene and empty caches.
    pub fn new() -> (r: Loader)
        ensures
            forall|doc: Document| r.wf(doc),
            forall|doc: Document| caches_faithful(r, doc),
            r.scene.geometry_meshes@.len() == 0,
            r.scene.materials@.len() == 0,
            r.scene.meshes@.len() == 0,
            r.scene.textures@.len() == 0,
            r.scene.name is None,
            r.geometry_mesh_indices@ == Map::<i64, u32>::empty(),
            r.material_indices@ == Map::<i64, u32>::empty(),
            r.mesh_indices@ == Map::<i64, u32>::empty(),
            r.texture_indices@ == Map::<i64, u32>::empty(),
    {
        Loader {
            scene: Scene::new(),
            geometry_mesh_indices: HashMap::new(),
            material_indices: HashMap::new(),
            mesh_indices: HashMap::new(),
            texture_indices: HashMap::new(),
        }
    }

    /// Loads the embedded image of a video-clip object: the stored filename's
    /// extension picks the decoder, and non-embedded media is refused.
    fn load_video_clip(doc: &Document, video_clip_id: i64) -> (r: Result<DecodedImage, Error>)
        requires
            doc.wf(),
        ensures
            match r {
                Result::Ok(img) => img.wf() && exists|i: int|
                    0 <= i < doc.video_clips@.len() && (#[trigger] doc.video_clips@[i]).id
                        == video_clip_id && {
                        let v = doc.video_clips@[i];
                        match v.content {
                            Option::Some(bytes) => if spec_is_tga(v.relative_filename@) {
                                tga_decoding(bytes@) == Option::Some(
                                    (img.width, img.height, img.rgba@),
                                )
                            } else {
                                image_decoding(bytes@) == Option::Some(
                                    (img.width, img.height, img.rgba@),
                                )
                            },
                            Option::None => false,
                        }
                    },
                Result::Err(e) => {
                    &&& !spec_clip_decodable(*doc, video_clip_id)
                    &&& (e == Error::DocumentAccessError <==> forall|i: int|
                        0 <= i < doc.video_clips@.len() ==> (#[trigger] doc.video_clips@[i]).id
                            != video_clip_id)
                    &&& (e == Error::NoEmbeddedImage <==> spec_clip_missing_content(
                        *doc,
                        video_clip_id,
                    ))
                    &&& (e == Error::ImageDecode <==> spec_clip_undecodable(*doc, video_clip_id))
                    &&& (e == Error::DocumentAccessError || e == Error::NoEmbeddedImage || e
                        == Error::ImageDecode)
                },
            },
            spec_clip_decodable(*doc, video_clip_id) ==> r is Ok,
    {
        let clip = match doc.find_video_clip(video_clip_id) {
            Option::Some(c) => c,
            Option::None => {
                return Result::Err(Error::DocumentAccessError);
            },
        };
        let content = match &clip.content {
            Option::Some(bytes) => bytes,
            Option::None => {
                // Only embedded media is supported.
                proof {
                    lemma_distinct_clip(doc, video_clip_id, clip);
                    let i = choose|i: int|
                        0 <= i < doc.video_clips@.len() && #[trigger] doc.video_clips@[i]
                            == *clip;
                    assert(doc.video_clips@[i].id == video_clip_id);
                    assert(spec_clip_missing_content(*doc, video_clip_id));
                    if spec_clip_undecodable(*doc, video_clip_id) {
                        let j = choose|j: int|
                            0 <= j < doc.video_clips@.len() && (
                            #[trigger] doc.video_clips@[j]).id == video_clip_id && {
                                let v = doc.video_clips@[j];
                                match v.content {
                                    Option::Some(bytes) => if spec_is_tga(
                                        v.relative_filename@,
                                    ) {
                                        tga_decoding(bytes@) is None
                                    } else {
                                        image_decoding(bytes@) is None
                                    },
                                    Option::None => false,
                                }
                            };
                        assert(doc.video_clips@[j] == *clip);
                        assert(false);
                    }
                }
                return Result::Err(Error::NoEmbeddedImage);
            },
        };
        let r = if filename_is_tga(clip.relative_filename.as_str()) {
            decode_tga_image(content)
        } else {
            decode_image(content)
        };
        proof {
            lemma_distinct_clip(doc, video_clip_id, clip);
            let i = choose|i: int|
                0 <= i < doc.video_clips@.len() && #[trigger] doc.video_clips@[i] == *clip;
            assert(doc.video_clips@[i].id == video_clip_id);
            if r is Err {
                assert(!spec_clip_decodable(*doc, video_clip_id));
                assert(spec_clip_undecodable(*doc, video_clip_id));
                if spec_clip_missing_content(*doc, video_clip_id) {
                    let j = choose|j: int|
                        0 <= j < doc.video_clips@.len() && (#[trigger] doc.video_clips@[j]).id
                            == video_clip_id && doc.video_clips@[j].content is None;
                    assert(doc.video_clips@[j] == *clip);
                    assert(false);
                }
            }
        }
        r
    }

    /// Loads a texture object, or returns the index it was already given.
    ///
    /// `transparent` records through which material slot the texture was
    /// reached; on a cache hit the flag recorded by the first loader wins.
    fn load_texture(&mut self, doc: &Document, texture_id: i64, transparent: bool) -> (r: Result<
        TextureIndex,
        Error,
    >)
        requires
            old(self).wf(*doc),
            caches_faithful(*old(self), *doc),
            doc.wf(),
        ensures
            final(self).wf(*doc),
            caches_faithful(*final(self), *doc),
            final(self).scene.geometry_meshes == old(self).scene.geometry_meshes,
            final(self).scene.materials == old(self).scene.materials,
            final(self).scene.meshes == old(self).scene.meshes,
            final(self).scene.name == old(self).scene.name,
            final(self).geometry_mesh_indices == old(self).geometry_mesh_indices,
            final(self).material_indices == old(self).material_indices,
            final(self).mesh_indices == old(self).mesh_indices,
            old(self).scene.textures@.is_prefix_of(final(self).scene.textures@),
            map_extends(final(self).texture_indices@, old(self).texture_indices@),
            match r {
                Result::Ok(idx) => {
                    &&& (idx.0 as int) < final(self).scene.textures@.len()
                    &&& final(self).texture_indices@.contains_key(texture_id)
                    &&& final(self).texture_indices@[texture_id] == idx.0
                    &&& (old(self).texture_indices@.contains_key(texture_id) ==> *final(self)
                        == *old(self) && idx.0 == old(self).texture_indices@[texture_id])
                    &&& (!old(self).texture_indices@.contains_key(texture_id) ==> {
                        &&& final(self).texture_indices@ == old(self).texture_indices@.insert(texture_id, idx.0)
                        &&& idx.0 == old(self).scene.textures@.len()
                        &&& final(self).scene.textures@.len() == old(self).scene.textures@.len()
                            + 1
                        &&& final(self).scene.textures@.last().transparent == transparent
                        &&& built_texture_matches(
                            final(self).scene.textures@.last(),
                            *doc,
                            texture_id,
                        )
                    })
                },
                Result::Err(e) => {
                    &&& !old(self).texture_indices@.contains_key(texture_id)
                    &&& *final(self) == *old(self)
                    &&& (e == Error::NoEmbeddedImage <==> (match spec_texture_clip(
                        *doc,
                        texture_id,
                    ) {
                        Option::Some(vid) => spec_clip_missing_content(*doc, vid),
                        Option::None => false,
                    }))
                    &&& (e == Error::ImageDecode <==> (match spec_texture_clip(
                        *doc,
                        texture_id,
                    ) {
                        Option::Some(vid) => spec_clip_undecodable(*doc, vid),
                        Option::None => false,
                    }))
                    &&& (e == Error::DocumentAccessError || e == Error::NoEmbeddedImage || e
                        == Error::ImageDecode)
                },
            },
            (old(self).texture_indices@.contains_key(texture_id) || spec_texture_loadable(
                *doc,
                texture_id,
            )) ==> r is Ok,
    {
        if let Option::Some(idx) = self.texture_indices.get(&texture_id) {
            let i = *idx;
            proof {
                assert(self.texture_indices@.contains_key(texture_id));
            }
            return Result::Ok(TextureIndex(i));
        }

        let tex_data = match doc.find_texture(texture_id) {
            Option::Some(t) => t,
            Option::None => {
                proof {
                    if spec_texture_loadable(*doc, texture_id) {
                        let i = choose|i: int|
                            0 <= i < doc.textures@.len() && (#[trigger] doc.textures@[i]).id
                                == texture_id && true;
                        assert(doc.textures@[i].id == texture_id);
                        assert(false);
                    }
                    if exists|i: int|
                        0 <= i < doc.textures@.len() && (#[trigger] doc.textures@[i]).id
                            == texture_id && doc.textures@[i].wrap_mode_u is Some
                            && doc.textures@[i].wrap_mode_v is Some
                            && doc.textures@[i].video_clip_id is Some {
                        let c = choose|i: int|
                            0 <= i < doc.textures@.len() && (#[trigger] doc.textures@[i]).id
                                == texture_id && doc.textures@[i].wrap_mode_u is Some
                                && doc.textures@[i].wrap_mode_v is Some
                                && doc.textures@[i].video_clip_id is Some;
                        assert(doc.textures@[c].id == texture_id);
                        assert(false);
                    }
                    assert(spec_texture_clip(*doc, texture_id) is None);
                }
                return Result::Err(Error::DocumentAccessError);
            },
        };
        let wrap_mode_u = match &tex_data.wrap_mode_u {
            Option::Some(RawWrapMode::Repeat) => WrapMode::Repeat,
            Option::Some(RawWrapMode::Clamp) => WrapMode::ClampToEdge,
            Option::None => {
                proof {
                    lemma_distinct_texture(doc, texture_id, tex_data);
                    lemma_texture_clip_route(doc, texture_id, tex_data);
                }
                return Result::Err(Error::DocumentAccessError);
            },
        };
        let wrap_mode_v = match &tex_data.wrap_mode_v {
            Option::Some(RawWrapMode::Repeat) => WrapMode::Repeat,
            Option::Some(RawWrapMode::Clamp) => WrapMode::ClampToEdge,
            Option::None => {
                proof {
                    lemma_distinct_texture(doc, texture_id, tex_data);
                    lemma_texture_clip_route(doc, texture_id, tex_data);
                }
                return Result::Err(Error::DocumentAccessError);
            },
        };
        let video_clip_id = match &tex_data.video_clip_id {
            Option::Some(vid) => *vid,
            Option::None => {
                proof {
                    lemma_distinct_texture(doc, texture_id, tex_data);
                    lemma_texture_clip_route(doc, texture_id, tex_data);
                }
                return Result::Err(Error::DocumentAccessError);
            },
        };
        let image = match Loader::load_video_clip(doc, video_clip_id) {
            Result::Ok(img) => img,
            Result::Err(e) => {
                proof {
                    lemma_distinct_texture(doc, texture_id, tex_data);
                    lemma_texture_clip_route(doc, texture_id, tex_data);
                }
                return Result::Err(e);
            },
        };

        let texture = Texture {
            name: tex_data.name.clone(),
            image,
            transparent,
            wrap_mode_u,
            wrap_mode_v,
        };
        proof {
            lemma_cache_len_bound(self.texture_indices@, doc.texture_ids());
            assert(doc.texture_ids().len() == doc.textures@.len());
        }
        let index = self.scene.add_texture(texture);
        let iu = index.to_usize();
        self.texture_indices.insert(texture_id, iu as u32);
        proof {
            let i = choose|i: int|
                0 <= i < doc.textures@.len() && #[trigger] doc.textures@[i] == *tex_data;
            assert(doc.texture_ids()[i] == tex_data.id);
            assert(doc.texture_ids().contains(texture_id));
            assert(self.texture_indices@[texture_id] == iu as u32);
            assert(self.scene.textures@[iu as int] == self.scene.textures@.last());
            assert(built_texture_matches(self.scene.textures@.last(), *doc, texture_id));
            assert forall|t2: i64|
                #[trigger] self.texture_indices@.contains_key(t2) && !old(
                    self,
                ).texture_indices@.contains_key(t2) implies built_texture_matches(
                self.scene.textures@[self.texture_indices@[t2] as int],
                *doc,
                t2,
            ) by {
                assert(t2 == texture_id);
            }
            lemma_faithful_step(*old(self), *self, *doc);
        }
        Result::Ok(index)
    }

    /// Builds the geometry mesh of one geometry object, or returns the index
    /// it was already given. `num_materials` is the owning mesh's material
    /// slot count, which every resolved slot must stay under.
    fn load_geometry_mesh(
        &mut self,
        doc: &Document,
        geometry: &GeometryData,
        num_materials: usize,
    ) -> (r: Result<GeometryMeshIndex, Error>)
        requires
            old(self).wf(*doc),
            caches_faithful(*old(self), *doc),
            doc.wf(),
            exists|i: int|
                0 <= i < doc.geometries@.len() && #[trigger] doc.geometries@[i] == *geometry,
        ensures
            final(self).wf(*doc),
            caches_faithful(*final(self), *doc),
            final(self).scene.materials == old(self).scene.materials,
            final(self).scene.meshes == old(self).scene.meshes,
            final(self).scene.textures == old(self).scene.textures,
            final(self).scene.name == old(self).scene.name,
            final(self).material_indices == old(self).material_indices,
            final(self).mesh_indices == old(self).mesh_indices,
            final(self).texture_indices == old(self).texture_indices,
            old(self).scene.geometry_meshes@.is_prefix_of(final(self).scene.geometry_meshes@),
            map_extends(final(self).geometry_mesh_indices@, old(self).geometry_mesh_indices@),
            match r {
                Result::Ok(idx) => {
                    &&& (idx.0 as int) < final(self).scene.geometry_meshes@.len()
                    &&& final(self).geometry_mesh_indices@.contains_key(geometry.id)
                    &&& final(self).geometry_mesh_indices@[geometry.id] == idx.0
                    &&& (old(self).geometry_mesh_indices@.contains_key(geometry.id) ==> *final(self) == *old(self) && idx.0 == old(self).geometry_mesh_indices@[geometry.id])
                    &&& (!old(self).geometry_mesh_indices@.contains_key(geometry.id) ==> {
                        &&& final(self).geometry_mesh_indices@ == old(self).geometry_mesh_indices@.insert(geometry.id, idx.0)
                        &&& idx.0 == old(self).scene.geometry_meshes@.len()
                        &&& final(self).scene.geometry_meshes@.len() == old(self).scene.geometry_meshes@.len() + 1
                        &&& built_geometry_matches(
                            final(self).scene.geometry_meshes@.last(),
                            *geometry,
                            num_materials as int,
                        )
                    })
                },
                Result::Err(e) => {
                    &&& *final(self) == *old(self)
                    &&& !old(self).geometry_mesh_indices@.contains_key(geometry.id)
                    &&& spec_build_geometry(*geometry, num_materials as int) == Result::Err::<
                        (Seq<Point3>, Seq<Vector3>, Seq<Point2>, Seq<Seq<u32>>),
                        Error,
                    >(e)
                },
            },
    {
        if let Option::Some(idx) = self.geometry_mesh_indices.get(&geometry.id) {
            let i = *idx;
            return Result::Ok(GeometryMeshIndex(i));
        }

        let cps = &geometry.control_points;
        let raw = &geometry.polygon_vertex_indices;
        proof {
            let gi = choose|i: int|
                0 <= i < doc.geometries@.len() && #[trigger] doc.geometries@[i] == *geometry;
            assert(doc.geometries@[gi].wf());
            assert(geometry.wf());
        }

        let tv = match triangulate_each(cps, raw) {
            Result::Ok(tv) => tv,
            Result::Err(e) => {
                return Result::Err(e);
            },
        };
        let count = tv.tri_pv_indices.len();
        let ghost pvs = tv.tri_pv_indices@;
        let ghost pis = tv.tri_poly_indices@;
        proof {
            lemma_triangulate_from_len(cps@, raw@, 0, 0);
            assert(count <= 3 * raw@.len());
        }

        // Resolve the position of every triangle corner.
        let mut positions: Vec<Point3> = Vec::new();
        let mut i: usize = 0;
        while i < count
            invariant
                *self == *old(self),
                doc.wf(),
                old(self).wf(*doc),
                caches_faithful(*old(self), *doc),
                !old(self).geometry_mesh_indices@.contains_key(geometry.id),
                spec_triangulation(geometry.control_points@, geometry.polygon_vertex_indices@)
                    == Result::Ok::<(Seq<usize>, Seq<usize>), Error>((pvs, pis)),
                i <= count,
                count == pvs.len(),
                pvs == tv.tri_pv_indices@,
                pis == tv.tri_poly_indices@,
                cps == geometry.control_points,
                raw == geometry.polygon_vertex_indices,
                forall|j: int| 0 <= j < i ==> pvi_ok(cps@, raw@, #[trigger] pvs[j] as int),
                positions@.len() == i,
                forall|j: int|
                    0 <= j < i ==> #[trigger] positions@[j] == point_at(cps@, raw@, pvs[j] as int),
            decreases count - i,
        {
            match get_point(cps, raw, tv.tri_pv_indices[i]) {
                Result::Ok(p) => positions.push(p),
                Result::Err(e) => {
                    proof {
                        assert(!pvi_ok(cps@, raw@, pvs[i as int] as int));
                        assert(spec_build_positions(cps@, raw@, pvs) == Result::Err::<
                            Seq<Point3>,
                            Error,
                        >(Error::IndexOutOfRange));
                    }
                    return Result::Err(e);
                },
            }
            i = i + 1;
        }
        let ghost spec_positions = Seq::new(pvs.len(), |j: int| point_at(cps@, raw@, pvs[j] as int));
        proof {
            assert(spec_build_positions(cps@, raw@, pvs) == Result::Ok::<Seq<Point3>, Error>(
                spec_positions,
            ));
            assert(positions@ =~= spec_positions);
        }

        // Resolve the normal of every triangle corner.
        let nl = match &geometry.normals {
            Option::Some(l) => l,
            Option::None => {
                return Result::Err(Error::MissingLayer);
            },
        };
        let mut normals: Vec<Vector3> = Vec::new();
        let mut i: usize = 0;
        while i < count
            invariant
                *self == *old(self),
                doc.wf(),
                old(self).wf(*doc),
                caches_faithful(*old(self), *doc),
                !old(self).geometry_mesh_indices@.contains_key(geometry.id),
                spec_triangulation(geometry.control_points@, geometry.polygon_vertex_indices@)
                    == Result::Ok::<(Seq<usize>, Seq<usize>), Error>((pvs, pis)),
                spec_build_positions(
                    geometry.control_points@,
                    geometry.polygon_vertex_indices@,
                    pvs,
                ) == Result::Ok::<Seq<Point3>, Error>(spec_positions),
                i <= count,
                count == pvs.len(),
                pvs == tv.tri_pv_indices@,
                pis == tv.tri_poly_indices@,
                raw == geometry.polygon_vertex_indices,
                geometry.normals == Option::Some(*nl),
                normals@.len() == i,
                forall|j: int|
                    0 <= j < i ==> (#[trigger] spec_resolve_normal(*nl, raw@, pvs, pis, j)) is Ok
                        && normals@[j] == spec_resolve_normal(*nl, raw@, pvs, pis, j)->Ok_0,
            decreases count - i,
        {
            match resolve_normal(nl, raw, &tv, i) {
                Result::Ok(v) => normals.push(v),
                Result::Err(e) => {
                    proof {
                        assert(spec_resolve_normal(*nl, raw@, pvs, pis, i as int)
                            == Result::Err::<Vector3, Error>(e));
                        if nl.mapping is ByEdge {
                            assert(e == Error::DocumentAccessError);
                            assert(spec_build_normals(*nl, raw@, pvs, pis) == Result::Err::<
                                Seq<Vector3>,
                                Error,
                            >(Error::DocumentAccessError));
                        } else {
                            assert(e == Error::IndexOutOfRange);
                            assert(!((#[trigger] spec_resolve_normal(
                                *nl,
                                raw@,
                                pvs,
                                pis,
                                i as int,
                            )) is Ok));
                            assert(spec_build_normals(*nl, raw@, pvs, pis) == Result::Err::<
                                Seq<Vector3>,
                                Error,
                            >(Error::IndexOutOfRange));
                        }
                    }
                    return Result::Err(e);
                },
            }
            i = i + 1;
        }
        let ghost spec_normals = Seq::new(
            pvs.len(),
            |j: int| spec_resolve_normal(*nl, raw@, pvs, pis, j)->Ok_0,
        );
        proof {
            if nl.mapping is ByEdge && count > 0 {
                assert(spec_resolve_normal(*nl, raw@, pvs, pis, 0) is Ok);
                assert(false);
            }
            assert(spec_build_normals(*nl, raw@, pvs, pis) == Result::Ok::<Seq<Vector3>, Error>(
                spec_normals,
            ));
            assert(normals@ =~= spec_normals);
        }

        // Resolve the UV of every triangle corner.
        let ul = match &geometry.uv {
            Option::Some(l) => l,
            Option::None => {
                return Result::Err(Error::MissingLayer);
            },
        };
        let mut uvs: Vec<Point2> = Vec::new();
        let mut i: usize = 0;
        while i < count
            invariant
                *self == *old(self),
                doc.wf(),
                old(self).wf(*doc),
                caches_faithful(*old(self), *doc),
                !old(self).geometry_mesh_indices@.contains_key(geometry.id),
                spec_triangulation(geometry.control_points@, geometry.polygon_vertex_indices@)
                    == Result::Ok::<(Seq<usize>, Seq<usize>), Error>((pvs, pis)),
                spec_build_positions(
                    geometry.control_points@,
                    geometry.polygon_vertex_indices@,
                    pvs,
                ) == Result::Ok::<Seq<Point3>, Error>(spec_positions),
                geometry.normals == Option::Some(*nl),
                spec_build_normals(*nl, geometry.polygon_vertex_indices@, pvs, pis)
                    == Result::Ok::<Seq<Vector3>, Error>(spec_normals),
                i <= count,
                count == pvs.len(),
                pvs == tv.tri_pv_indices@,
                pis == tv.tri_poly_indices@,
                raw == geometry.polygon_vertex_indices,
                geometry.uv == Option::Some(*ul),
                uvs@.len() == i,
                forall|j: int|
                    0 <= j < i ==> (#[trigger] spec_resolve_uv(*ul, raw@, pvs, pis, j)) is Ok
                        && uvs@[j] == spec_resolve_uv(*ul, raw@, pvs, pis, j)->Ok_0,
            decreases count - i,
        {
            match resolve_uv(ul, raw, &tv, i) {
                Result::Ok(v) => uvs.push(v),
                Result::Err(e) => {
                    proof {
                        assert(spec_resolve_uv(*ul, raw@, pvs, pis, i as int) == Result::Err::<
                            Point2,
                            Error,
                        >(e));
                        if ul.mapping is ByEdge {
                            assert(e == Error::DocumentAccessError);
                            assert(spec_build_uvs(*ul, raw@, pvs, pis) == Result::Err::<
                                Seq<Point2>,
                                Error,
                            >(Error::DocumentAccessError));
                        } else {
                            assert(e == Error::IndexOutOfRange);
                            assert(!((#[trigger] spec_resolve_uv(
                                *ul,
                                raw@,
                                pvs,
                                pis,
                                i as int,
                            )) is Ok));
                            assert(spec_build_uvs(*ul, raw@, pvs, pis) == Result::Err::<
                                Seq<Point2>,
                                Error,
                            >(Error::IndexOutOfRange));
                        }
                    }
                    return Result::Err(e);
                },
            }
            i = i + 1;
        }
        let ghost spec_uvs = Seq::new(
            pvs.len(),
            |j: int| spec_resolve_uv(*ul, raw@, pvs, pis, j)->Ok_0,
        );
        proof {
            if ul.mapping is ByEdge && count > 0 {
                assert(spec_resolve_uv(*ul, raw@, pvs, pis, 0) is Ok);
                assert(false);
            }
            assert(spec_build_uvs(*ul, raw@, pvs, pis) == Result::Ok::<Seq<Point2>, Error>(
                spec_uvs,
            ));
            assert(uvs@ =~= spec_uvs);
        }

        // Resolve the material slot of every triangle corner and bucket the
        // corner indices by slot.
        let ml = match &geometry.materials {
            Option::Some(l) => l,
            Option::None => {
                return Result::Err(Error::MissingLayer);
            },
        };
        let mut buckets: Vec<Vec<u32>> = Vec::new();
        let mut m: usize = 0;
        while m < num_materials
            invariant
                m <= num_materials,
                buckets@.len() == m,
                forall|k: int| 0 <= k < m ==> (#[trigger] buckets@[k])@.len() == 0,
            decreases num_materials - m,
        {
            buckets.push(Vec::new());
            m = m + 1;
        }
        let ghost mut slots: Seq<u32> = Seq::empty();
        proof {
            assert(sum_bucket_lens(buckets@.subrange(0, 0)) == 0);
            lemma_sum_all_empty(buckets@);
            assert forall|mm: int| 0 <= mm < num_materials implies (#[trigger] buckets@[mm])@
                == spec_bucket(slots, mm) by {
                assert(buckets@[mm]@ =~= spec_bucket(slots, mm));
            }
        }
        let mut i: usize = 0;
        while i < count
            invariant
                *self == *old(self),
                doc.wf(),
                old(self).wf(*doc),
                caches_faithful(*old(self), *doc),
                !old(self).geometry_mesh_indices@.contains_key(geometry.id),
                spec_triangulation(geometry.control_points@, geometry.polygon_vertex_indices@)
                    == Result::Ok::<(Seq<usize>, Seq<usize>), Error>((pvs, pis)),
                spec_build_positions(
                    geometry.control_points@,
                    geometry.polygon_vertex_indices@,
                    pvs,
                ) == Result::Ok::<Seq<Point3>, Error>(spec_positions),
                geometry.normals == Option::Some(*nl),
                spec_build_normals(*nl, geometry.polygon_vertex_indices@, pvs, pis)
                    == Result::Ok::<Seq<Vector3>, Error>(spec_normals),
                geometry.uv == Option::Some(*ul),
                spec_build_uvs(*ul, geometry.polygon_vertex_indices@, pvs, pis)
                    == Result::Ok::<Seq<Point2>, Error>(spec_uvs),
                i <= count,
                count == pvs.len(),
                count <= 3 * raw@.len(),
                raw@.len() <= document::MAX_POLYGON_VERTICES,
                pvs == tv.tri_pv_indices@,
                pis == tv.tri_poly_indices@,
                raw == geometry.polygon_vertex_indices,
                geometry.materials == Option::Some(*ml),
                slots.len() == i,
                buckets@.len() == num_materials,
                forall|j: int|
                    0 <= j < i ==> (#[trigger] spec_resolve_material(*ml, raw@, pvs, pis, j)) is Ok
                        && slots[j] == spec_resolve_material(*ml, raw@, pvs, pis, j)->Ok_0,
                forall|j: int| 0 <= j < i ==> (#[trigger] slots[j]) < num_materials,
                forall|mm: int|
                    0 <= mm < num_materials ==> (#[trigger] buckets@[mm])@ == spec_bucket(
                        slots,
                        mm,
                    ),
                sum_bucket_lens(buckets@) == i,
                forall|mm: int, jj: int|
                    0 <= mm < num_materials && 0 <= jj < buckets@[mm]@.len() ==> (
                    #[trigger] buckets@[mm]@[jj]) < i,
            decreases count - i,
        {
            match resolve_material(ml, raw, &tv, i) {
                Result::Ok(slot) => {
                    proof {
                        if ml.mapping is ByEdge {
                            assert(spec_resolve_material(*ml, raw@, pvs, pis, i as int) is Err);
                            assert(false);
                        }
                    }
                    if (slot as usize) >= num_materials {
                        proof {
                            match spec_build_slots(*ml, raw@, pvs, pis) {
                                Result::Ok(ss) => {
                                    assert(ss[i as int] == spec_resolve_material(
                                        *ml,
                                        raw@,
                                        pvs,
                                        pis,
                                        i as int,
                                    )->Ok_0);
                                    assert((ss[i as int] as int) >= num_materials);
                                },
                                Result::Err(e) => {
                                    assert(e == Error::IndexOutOfRange);
                                },
                            }
                        }
                        return Result::Err(Error::IndexOutOfRange);
                    }
                    let su = slot as usize;
                    let ghost bprev = buckets@;
                    buckets[su].push(i as u32);
                    proof {
                        let inner_new = buckets@[su as int];
                        assert(buckets@ == bprev.update(su as int, inner_new));
                        assert(inner_new@ == bprev[su as int]@.push(i as u32));
                        lemma_sum_update(bprev, su as int, inner_new);
                        assert forall|mm: int| 0 <= mm < num_materials implies (
                        #[trigger] buckets@[mm])@ == spec_bucket(slots.push(slot), mm) by {
                            lemma_spec_bucket_push(slots, slot, mm);
                            if mm == su as int {
                                assert(buckets@[mm]@ == bprev[mm]@.push(i as u32));
                            } else {
                                assert(buckets@[mm] == bprev[mm]);
                            }
                        }
                        slots = slots.push(slot);
                    }
                },
                Result::Err(e) => {
                    proof {
                        assert(spec_resolve_material(*ml, raw@, pvs, pis, i as int)
                            == Result::Err::<u32, Error>(e));
                        if ml.mapping is ByEdge {
                            assert(e == Error::DocumentAccessError);
                            assert(spec_build_slots(*ml, raw@, pvs, pis) == Result::Err::<
                                Seq<u32>,
                                Error,
                            >(Error::DocumentAccessError));
                        } else {
                            assert(e == Error::IndexOutOfRange);
                            assert(!((#[trigger] spec_resolve_material(
                                *ml,
                                raw@,
                                pvs,
                                pis,
                                i as int,
                            )) is Ok));
                            assert(spec_build_slots(*ml, raw@, pvs, pis) == Result::Err::<
                                Seq<u32>,
                                Error,
                            >(Error::IndexOutOfRange));
                        }
                    }
                    return Result::Err(e);
                },
            }
            i = i + 1;
        }
        proof {
            let spec_slots = Seq::new(
                pvs.len(),
                |j: int| spec_resolve_material(*ml, raw@, pvs, pis, j)->Ok_0,
            );
            assert(slots =~= spec_slots);
            if ml.mapping is ByEdge && count > 0 {
                assert(spec_resolve_material(*ml, raw@, pvs, pis, 0) is Ok);
                assert(false);
            }
            assert(spec_build_slots(*ml, raw@, pvs, pis) == Result::Ok::<Seq<u32>, Error>(slots));
            assert(!(exists|j: int|
                0 <= j < slots.len() && (#[trigger] slots[j]) as int >= num_materials));
        }

        // The three attribute arrays are parallel by construction; the checks
        // mirror the load-time invariant.
        if positions.len() != normals.len() {
            return Result::Err(Error::LengthMismatch);
        }
        if positions.len() != uvs.len() {
            return Result::Err(Error::LengthMismatch);
        }

        let mesh = GeometryMesh {
            name: clone_name(&geometry.name),
            positions,
            normals,
            uv: uvs,
            indices_per_material: buckets,
        };
        proof {
            lemma_cache_len_bound(self.geometry_mesh_indices@, doc.geometry_ids());
            assert(doc.geometry_ids().len() == doc.geometries@.len());
            assert(mesh.wf());
        }
        let index = self.scene.add_geometry_mesh(mesh);
        let iu = index.to_usize();
        self.geometry_mesh_indices.insert(geometry.id, iu as u32);
        proof {
            let gi = choose|i: int|
                0 <= i < doc.geometries@.len() && #[trigger] doc.geometries@[i] == *geometry;
            assert(doc.geometry_ids()[gi] == geometry.id);
            assert(doc.geometry_ids().contains(geometry.id));
            assert(self.geometry_mesh_indices@[geometry.id] == iu as u32);
            assert(self.scene.geometry_meshes@[iu as int]
                == self.scene.geometry_meshes@.last());
            assert(built_geometry_matches(
                self.scene.geometry_meshes@.last(),
                *geometry,
                num_materials as int,
            ));
            assert forall|g2: i64|
                #[trigger] self.geometry_mesh_indices@.contains_key(g2) && !old(
                    self,
                ).geometry_mesh_indices@.contains_key(g2) implies exists|gi2: int|
                0 <= gi2 < doc.geometries@.len() && (#[trigger] doc.geometries@[gi2]).id == g2
                    && exists|count: int|
                    0 <= count && #[trigger] built_geometry_matches(
                        self.scene.geometry_meshes@[self.geometry_mesh_indices@[g2] as int],
                        doc.geometries@[gi2],
                        count,
                    ) by {
                assert(g2 == geometry.id);
                assert(doc.geometries@[gi].id == g2);
                assert(built_geometry_matches(
                    self.scene.geometry_meshes@[self.geometry_mesh_indices@[g2] as int],
                    doc.geometries@[gi],
                    num_materials as int,
                ));
            }
            lemma_faithful_step(*old(self), *self, *doc);
        }
        Result::Ok(index)
    }

    /// Loads a material object, or returns the index it was already given:
    /// the diffuse texture is resolved first (preferring the transparent
    /// slot), then the shading model, then the colour properties.
    fn load_material(&mut self, doc: &Document, material: &document::MaterialData) -> (r: Result<
        MaterialIndex,
        Error,
    >)
        requires
            old(self).wf(*doc),
            caches_faithful(*old(self), *doc),
            doc.wf(),
            exists|i: int|
                0 <= i < doc.materials@.len() && #[trigger] doc.materials@[i] == *material,
        ensures
            final(self).wf(*doc),
            caches_faithful(*final(self), *doc),
            final(self).scene.geometry_meshes == old(self).scene.geometry_meshes,
            final(self).scene.meshes == old(self).scene.meshes,
            final(self).scene.name == old(self).scene.name,
            final(self).geometry_mesh_indices == old(self).geometry_mesh_indices,
            final(self).mesh_indices == old(self).mesh_indices,
            old(self).scene.materials@.is_prefix_of(final(self).scene.materials@),
            old(self).scene.textures@.is_prefix_of(final(self).scene.textures@),
            map_extends(final(self).material_indices@, old(self).material_indices@),
            map_extends(final(self).texture_indices@, old(self).texture_indices@),
            match r {
                Result::Ok(idx) => {
                    &&& (idx.0 as int) < final(self).scene.materials@.len()
                    &&& final(self).material_indices@.contains_key(material.id)
                    &&& final(self).material_indices@[material.id] == idx.0
                    &&& (old(self).material_indices@.contains_key(material.id) ==> *final(self)
                        == *old(self) && idx.0 == old(self).material_indices@[material.id])
                    &&& (!old(self).material_indices@.contains_key(material.id) ==> {
                        &&& final(self).material_indices@ == old(self).material_indices@.insert(material.id, idx.0)
                        &&& idx.0 == old(self).scene.materials@.len()
                        &&& final(self).scene.materials@.len() == old(self).scene.materials@.len() + 1
                        &&& {
                            let mat = final(self).scene.materials@.last();
                            &&& built_material_matches(mat, *material)
                            &&& match spec_chosen_texture(*material) {
                                Option::Some(tid) => mat.diffuse_texture matches Option::Some(ti)
                                    && final(self).texture_indices@.contains_key(tid) && ti.0
                                    == final(self).texture_indices@[tid] && (!old(self).texture_indices@.contains_key(tid) ==> final(self).scene.textures@.len() == old(self).scene.textures@.len() + 1
                                    && final(self).scene.textures@.last().transparent == (
                                material.transparent_texture_id is Some)),
                                Option::None => mat.diffuse_texture is None,
                            }
                        }
                    })
                },
                Result::Err(e) => {
                    &&& !old(self).material_indices@.contains_key(material.id)
                    &&& final(self).scene.materials == old(self).scene.materials
                    &&& final(self).material_indices == old(self).material_indices
                    &&& (e == Error::UnsupportedShadingModel ==> spec_shading_unrecognized(
                        *material,
                    ))
                },
            },
            (old(self).material_indices@.contains_key(material.id) || spec_material_loadable(
                *doc,
                *material,
            )) ==> r is Ok,
            (!old(self).material_indices@.contains_key(material.id) && spec_texture_ref_ok(
                old(self).texture_indices@,
                *doc,
                *material,
            ) && spec_shading_unrecognized(*material)) ==> r == Result::Err::<MaterialIndex, Error>(
                Error::UnsupportedShadingModel,
            ),
    {
        if let Option::Some(idx) = self.material_indices.get(&material.id) {
            let i = *idx;
            return Result::Ok(MaterialIndex(i));
        }

        // Resolve the diffuse texture, preferring the transparent slot; the
        // transparent slot marks the texture as needing alpha blending.
        let diffuse_texture: Option<TextureIndex> = if let Option::Some(tid) =
            material.transparent_texture_id {
            match self.load_texture(doc, tid, true) {
                Result::Ok(ti) => Option::Some(ti),
                Result::Err(e) => {
                    return Result::Err(e);
                },
            }
        } else if let Option::Some(tid) = material.diffuse_texture_id {
            match self.load_texture(doc, tid, false) {
                Result::Ok(ti) => Option::Some(ti),
                Result::Err(e) => {
                    return Result::Err(e);
                },
            }
        } else {
            Option::None
        };
        let ghost mid = *self;

        // Resolve the shading model: only Lambert and Phong are supported,
        // and both are carried as Lambert parameters.
        let sm = match &material.shading_model {
            Option::Some(s) => s,
            Option::None => {
                return Result::Err(Error::DocumentAccessError);
            },
        };
        let lambert = "Lambert".to_owned();
        let phong = "Phong".to_owned();
        if !(*sm == lambert || *sm == phong) {
            return Result::Err(Error::UnsupportedShadingModel);
        }

        proof {
            let mi = choose|i: int|
                0 <= i < doc.materials@.len() && #[trigger] doc.materials@[i] == *material;
            assert(doc.materials@[mi].wf());
            assert(material.wf());
        }
        let ambient = match (&material.ambient_color, &material.ambient_factor) {
            (Option::Some(c), Option::Some(f)) => c.scaled(*f),
            _ => {
                return Result::Err(Error::DocumentAccessError);
            },
        };
        let diffuse = match (&material.diffuse_color, &material.diffuse_factor) {
            (Option::Some(c), Option::Some(f)) => c.scaled(*f),
            _ => {
                return Result::Err(Error::DocumentAccessError);
            },
        };
        let emissive = match (&material.emissive_color, &material.emissive_factor) {
            (Option::Some(c), Option::Some(f)) => c.scaled(*f),
            _ => {
                return Result::Err(Error::DocumentAccessError);
            },
        };

        let mat = Material {
            name: clone_name(&material.name),
            diffuse_texture,
            data: ShadingData::Lambert(LambertData { ambient, diffuse, emissive }),
        };
        proof {
            lemma_cache_len_bound(self.material_indices@, doc.material_ids());
            assert(doc.material_ids().len() == doc.materials@.len());
        }
        let index = self.scene.add_material(mat);
        let iu = index.to_usize();
        self.material_indices.insert(material.id, iu as u32);
        proof {
            let mi = choose|i: int|
                0 <= i < doc.materials@.len() && #[trigger] doc.materials@[i] == *material;
            assert(doc.material_ids()[mi] == material.id);
            assert(doc.material_ids().contains(material.id));
            assert(self.material_indices@[material.id] == iu as u32);
            assert(self.scene.materials@[iu as int] == self.scene.materials@.last());
            assert(built_material_matches(self.scene.materials@.last(), *material));
            assert forall|m2: i64|
                #[trigger] self.material_indices@.contains_key(m2) && !mid.material_indices@.contains_key(
                    m2,
                ) implies exists|mi2: int|
                0 <= mi2 < doc.materials@.len() && (#[trigger] doc.materials@[mi2]).id == m2 && {
                    let mat = self.scene.materials@[self.material_indices@[m2] as int];
                    &&& built_material_matches(mat, doc.materials@[mi2])
                    &&& match spec_chosen_texture(doc.materials@[mi2]) {
                        Option::Some(tid) => mat.diffuse_texture matches Option::Some(ti)
                            && self.texture_indices@.contains_key(tid) && ti.0
                            == self.texture_indices@[tid],
                        Option::None => mat.diffuse_texture is None,
                    }
                } by {
                assert(m2 == material.id);
                assert(doc.materials@[mi].id == m2);
                let mat = self.scene.materials@[self.material_indices@[m2] as int];
                assert(mat == self.scene.materials@.last());
                assert(built_material_matches(mat, doc.materials@[mi]));
            }
            lemma_faithful_step(mid, *self, *doc);
        }
        Result::Ok(index)
    }

    /// Loads a mesh-model object, or returns the index it was already given:
    /// its materials are loaded in slot order, then its geometry is built
    /// with that slot count.
    #[verifier::rlimit(60)]
    fn load_mesh(&mut self, doc: &Document, model: &document::ModelData) -> (r: Result<
        MeshIndex,
        Error,
    >)
        requires
            old(self).wf(*doc),
            caches_faithful(*old(self), *doc),
            doc.wf(),
            exists|i: int| 0 <= i < doc.models@.len() && #[trigger] doc.models@[i] == *model,
        ensures
            final(self).wf(*doc),
            caches_faithful(*final(self), *doc),
            final(self).scene.name == old(self).scene.name,
            old(self).scene.geometry_meshes@.is_prefix_of(final(self).scene.geometry_meshes@),
            old(self).scene.materials@.is_prefix_of(final(self).scene.materials@),
            old(self).scene.textures@.is_prefix_of(final(self).scene.textures@),
            map_extends(final(self).geometry_mesh_indices@, old(self).geometry_mesh_indices@),
            map_extends(final(self).material_indices@, old(self).material_indices@),
            map_extends(final(self).texture_indices@, old(self).texture_indices@),
            match r {
                Result::Ok(idx) => {
                    &&& (idx.0 as int) < final(self).scene.meshes@.len()
                    &&& final(self).mesh_indices@.contains_key(model.id)
                    &&& final(self).mesh_indices@[model.id] == idx.0
                    &&& (old(self).mesh_indices@.contains_key(model.id) ==> *final(self) == *old(self) && idx.0 == old(self).mesh_indices@[model.id])
                    &&& (!old(self).mesh_indices@.contains_key(model.id) ==> {
                        &&& final(self).mesh_indices@ == old(self).mesh_indices@.insert(
                            model.id,
                            idx.0,
                        )
                        &&& idx.0 == old(self).scene.meshes@.len()
                        &&& final(self).scene.meshes@.len() == old(self).scene.meshes@.len() + 1
                        &&& old(self).scene.meshes@.is_prefix_of(final(self).scene.meshes@)
                        &&& {
                            let mesh = final(self).scene.meshes@.last();
                            &&& mesh.name == model.name
                            &&& mesh.materials@.len() == model.material_ids@.len()
                            &&& model.geometry_id matches Option::Some(gid) && final(self).geometry_mesh_indices@.contains_key(gid)
                                && mesh.geometry_mesh_index.0 == final(self).geometry_mesh_indices@[gid]
                                && (old(self).geometry_mesh_indices@.contains_key(gid) ==> final(self).geometry_mesh_indices@ == old(self).geometry_mesh_indices@
                                    && final(self).scene.geometry_meshes == old(self).scene.geometry_meshes)
                                && (!old(self).geometry_mesh_indices@.contains_key(gid) ==> final(self).geometry_mesh_indices@ == old(self).geometry_mesh_indices@.insert(
                                    gid,
                                    mesh.geometry_mesh_index.0,
                                ) && mesh.geometry_mesh_index.0 == old(self).scene.geometry_meshes@.len()
                                    && final(self).scene.geometry_meshes@.len() == old(self).scene.geometry_meshes@.len() + 1
                                    && (exists|gi: int|
                                    0 <= gi < doc.geometries@.len() && (#[trigger] doc.geometries@[gi]).id == gid
                                        && built_geometry_matches(
                                        final(self).scene.geometry_meshes@.last(),
                                        doc.geometries@[gi],
                                        model.material_ids@.len() as int,
                                    )))
                            &&& forall|s: int|
                                0 <= s < model.material_ids@.len() ==> final(self).material_indices@.contains_key(#[trigger] model.material_ids@[s])
                                    && mesh.materials@[s].0 == final(self).material_indices@[model.material_ids@[s]]
                        }
                    })
                },
                Result::Err(e) => {
                    &&& !old(self).mesh_indices@.contains_key(model.id)
                    &&& final(self).scene.meshes == old(self).scene.meshes
                    &&& final(self).mesh_indices == old(self).mesh_indices
                },
            },
            (old(self).mesh_indices@.contains_key(model.id) || spec_mesh_loadable(*doc, *model))
                ==> r is Ok,
    {
        if let Option::Some(idx) = self.mesh_indices.get(&model.id) {
            let i = *idx;
            return Result::Ok(MeshIndex(i));
        }

        let gid = match model.geometry_id {
            Option::Some(g) => g,
            Option::None => {
                return Result::Err(Error::DocumentAccessError);
            },
        };

        // Load the referenced materials, in slot order.
        let n_mats = model.material_ids.len();
        let mut materials: Vec<MaterialIndex> = Vec::new();
        let mut s: usize = 0;
        while s < n_mats
            invariant
                doc.wf(),
                old(self).wf(*doc),
                self.wf(*doc),
                caches_faithful(*self, *doc),
                !old(self).mesh_indices@.contains_key(model.id),
                exists|i: int| 0 <= i < doc.models@.len() && #[trigger] doc.models@[i] == *model,
                n_mats == model.material_ids@.len(),
                s <= n_mats,
                materials@.len() == s,
                self.scene.geometry_meshes == old(self).scene.geometry_meshes,
                self.scene.meshes == old(self).scene.meshes,
                self.scene.name == old(self).scene.name,
                self.geometry_mesh_indices == old(self).geometry_mesh_indices,
                self.mesh_indices == old(self).mesh_indices,
                old(self).scene.materials@.is_prefix_of(self.scene.materials@),
                old(self).scene.textures@.is_prefix_of(self.scene.textures@),
                map_extends(self.material_indices@, old(self).material_indices@),
                map_extends(self.texture_indices@, old(self).texture_indices@),
                forall|j: int|
                    0 <= j < s ==> self.material_indices@.contains_key(
                        #[trigger] model.material_ids@[j],
                    ) && materials@[j].0 == self.material_indices@[model.material_ids@[j]],
            decreases n_mats - s,
        {
            let mid = model.material_ids[s];
            let material = match doc.find_material(mid) {
                Option::Some(m) => m,
                Option::None => {
                    proof {
                        if spec_mesh_loadable(*doc, *model) {
                            assert(exists|mi: int|
                                0 <= mi < doc.materials@.len() && (
                                #[trigger] doc.materials@[mi]).id == (
                                #[trigger] model.material_ids@[s as int]) && spec_material_loadable(
                                *doc,
                                doc.materials@[mi],
                            ));
                            let mi = choose|mi: int|
                                0 <= mi < doc.materials@.len() && (
                                #[trigger] doc.materials@[mi]).id == model.material_ids@[s as int]
                                    && spec_material_loadable(*doc, doc.materials@[mi]);
                            assert(doc.materials@[mi].id == mid);
                            assert(false);
                        }
                    }
                    return Result::Err(Error::DocumentAccessError);
                },
            };
            match self.load_material(doc, material) {
                Result::Ok(mi) => {
                    materials.push(mi);
                },
                Result::Err(e) => {
                    proof {
                        if spec_mesh_loadable(*doc, *model) {
                            let mi = choose|mi: int|
                                0 <= mi < doc.materials@.len() && (
                                #[trigger] doc.materials@[mi]).id == model.material_ids@[s as int]
                                    && spec_material_loadable(*doc, doc.materials@[mi]);
                            lemma_distinct_material(doc, mid, material);
                            assert(doc.materials@[mi] == *material);
                            assert(false);
                        }
                    }
                    return Result::Err(e);
                },
            }
            s = s + 1;
        }

        // Resolve and build the geometry with this mesh's slot count.
        let geometry = match doc.find_geometry(gid) {
            Option::Some(g) => g,
            Option::None => {
                proof {
                    if spec_mesh_loadable(*doc, *model) {
                        let gi = choose|i: int|
                            0 <= i < doc.geometries@.len() && (#[trigger] doc.geometries@[i]).id
                                == gid && spec_build_geometry(
                                doc.geometries@[i],
                                model.material_ids@.len() as int,
                            ) is Ok;
                        assert(doc.geometries@[gi].id == gid);
                        assert(false);
                    }
                }
                return Result::Err(Error::DocumentAccessError);
            },
        };
        let geometry_index = match self.load_geometry_mesh(doc, geometry, materials.len()) {
            Result::Ok(gi) => gi,
            Result::Err(e) => {
                proof {
                    if spec_mesh_loadable(*doc, *model) {
                        let gi = choose|i: int|
                            0 <= i < doc.geometries@.len() && (#[trigger] doc.geometries@[i]).id
                                == gid && spec_build_geometry(
                                doc.geometries@[i],
                                model.material_ids@.len() as int,
                            ) is Ok;
                        lemma_distinct_geometry(doc, gid, geometry);
                        assert(doc.geometries@[gi] == *geometry);
                        assert(false);
                    }
                }
                return Result::Err(e);
            },
        };

        let ghost pre_mesh = *self;
        let ghost mats_view = materials@;
        let mesh = Mesh {
            name: clone_name(&model.name),
            geometry_mesh_index: geometry_index,
            materials,
        };
        proof {
            assert forall|j: int| 0 <= j < mesh.materials@.len() implies (
            #[trigger] mesh.materials@[j]).0 < self.scene.materials@.len() by {
                assert(self.material_indices@.contains_key(model.material_ids@[j]));
                assert(mesh.materials@[j].0 == self.material_indices@[model.material_ids@[j]]);
            }
            lemma_cache_len_bound(self.mesh_indices@, doc.model_ids());
            assert(doc.model_ids().len() == doc.models@.len());
            assert(self.scene.wf());
        }
        let ghost pre_scene = self.scene;
        let index = self.scene.add_mesh(mesh);
        let iu = index.to_usize();
        self.mesh_indices.insert(model.id, iu as u32);
        proof {
            let mi = choose|i: int|
                0 <= i < doc.models@.len() && #[trigger] doc.models@[i] == *model;
            assert(doc.model_ids()[mi] == model.id);
            assert(doc.model_ids().contains(model.id));
            assert(self.mesh_indices@ == old(self).mesh_indices@.insert(model.id, iu as u32));
            assert forall|k: i64| #[trigger] self.mesh_indices@.contains_key(k) implies
                doc.model_ids().contains(k) && (self.mesh_indices@[k] as int)
                    < self.scene.meshes@.len() by {
                if k != model.id {
                    assert(old(self).mesh_indices@.contains_key(k));
                    assert(self.mesh_indices@[k] == old(self).mesh_indices@[k]);
                }
            }
            assert(self.scene.meshes@.len() == self.mesh_indices@.len());
            let sc = self.scene;
            assert(sc.meshes@ == pre_scene.meshes@.push(mesh));
            assert(sc.geometry_meshes == pre_scene.geometry_meshes && sc.materials
                == pre_scene.materials && sc.textures == pre_scene.textures);
            assert forall|i: int| 0 <= i < sc.meshes@.len() implies (
            #[trigger] sc.meshes@[i]).geometry_mesh_index.0 < sc.geometry_meshes@.len() by {
                if i < pre_scene.meshes@.len() {
                    assert(sc.meshes@[i] == pre_scene.meshes@[i]);
                } else {
                    assert(sc.meshes@[i] == mesh);
                }
            }
            assert forall|i: int, j: int|
                0 <= i < sc.meshes@.len() && 0 <= j < sc.meshes@[i].materials@.len() implies (
            #[trigger] sc.meshes@[i].materials@[j]).0 < sc.materials@.len() by {
                if i < pre_scene.meshes@.len() {
                    assert(sc.meshes@[i] == pre_scene.meshes@[i]);
                    assert(pre_scene.meshes@[i].materials@[j].0 < pre_scene.materials@.len());
                } else {
                    assert(sc.meshes@[i] == mesh);
                    assert(mesh.materials@[j].0 < sc.materials@.len());
                }
            }
            assert(self.scene.wf());
            assert(self.wf(*doc));
            assert(pre_mesh.scene.textures@.is_prefix_of(self.scene.textures@)) by {
                assert(self.scene.textures@.subrange(0, self.scene.textures@.len() as int)
                    =~= self.scene.textures@);
            }
            assert(pre_mesh.scene.materials@.is_prefix_of(self.scene.materials@)) by {
                assert(self.scene.materials@.subrange(0, self.scene.materials@.len() as int)
                    =~= self.scene.materials@);
            }
            assert(pre_mesh.scene.geometry_meshes@.is_prefix_of(self.scene.geometry_meshes@))
                by {
                assert(self.scene.geometry_meshes@.subrange(
                    0,
                    self.scene.geometry_meshes@.len() as int,
                ) =~= self.scene.geometry_meshes@);
            }
            lemma_faithful_step(pre_mesh, *self, *doc);
        }
        Result::Ok(index)
    }

    /// Walks every mesh-model object of the document, in document order, and
    /// assembles the scene; any failure aborts the whole load.
    #[verifier::rlimit(100)]
    pub fn load(self, doc: &Document) -> (r: Result<Scene, Error>)
        requires
            self.wf(*doc),
            caches_faithful(self, *doc),
            doc.wf(),
            self.scene.meshes@.len() == 0,
            self.mesh_indices@ == Map::<i64, u32>::empty(),
            self.geometry_mesh_indices@ == Map::<i64, u32>::empty(),
        ensures
            match r {
                Result::Ok(scene) => scene.wf() && scene_reflects_document(scene, *doc),
                Result::Err(_) => true,
            },
            (forall|i: int|
                0 <= i < doc.models@.len() ==> spec_mesh_loadable(
                    *doc,
                    #[trigger] doc.models@[i],
                )) ==> r is Ok,
    {
        let mut me = self;
        let mut i: usize = 0;
        while i < doc.models.len()
            invariant
                doc.wf(),
                me.wf(*doc),
                caches_faithful(me, *doc),
                i <= doc.models@.len(),
                me.scene.meshes@.len() == i,
                forall|k: int|
                    0 <= k < i ==> me.mesh_indices@.contains_key(
                        #[trigger] doc.models@[k].id,
                    ) && me.mesh_indices@[doc.models@[k].id] == k,
                forall|k: int| 0 <= k < i ==> #[trigger] mesh_corresponds(me, *doc, k),
                forall|gid: i64| #[trigger]
                    me.geometry_mesh_indices@.contains_key(gid) ==> {
                        let j = first_geometry_ref(doc.models@, gid);
                        &&& 0 <= j < i
                        &&& exists|gi: int|
                            0 <= gi < doc.geometries@.len() && (#[trigger] doc.geometries@[gi]).id
                                == gid && built_geometry_matches(
                                me.scene.geometry_meshes@[me.geometry_mesh_indices@[gid] as int],
                                doc.geometries@[gi],
                                doc.models@[j].material_ids@.len() as int,
                            )
                    },
            decreases doc.models@.len() - i,
        {
            proof {
                let prefix = doc.model_ids().subrange(0, i as int);
                assert forall|k: int| 0 <= k < prefix.len() implies me.mesh_indices@.contains_key(
                    #[trigger] prefix[k],
                ) by {
                    assert(prefix[k] == doc.model_ids()[k]);
                    assert(doc.model_ids()[k] == doc.models@[k].id);
                }
                assert(document::distinct_ids(prefix)) by {
                    assert forall|a: int, b: int| 0 <= a < b < prefix.len() implies prefix[a]
                        != prefix[b] by {
                        assert(prefix[a] == doc.model_ids()[a]);
                        assert(prefix[b] == doc.model_ids()[b]);
                    }
                }
                let mid_i = doc.models@[i as int].id;
                assert forall|k: int| 0 <= k < prefix.len() implies prefix[k] != mid_i by {
                    assert(prefix[k] == doc.model_ids()[k]);
                    assert(doc.model_ids()[i as int] == doc.models@[i as int].id);
                }
                lemma_full_cache(me.mesh_indices@, prefix, doc.models@[i as int].id);
            }
            let model = &doc.models[i];
            let ghost prev = me;
            match me.load_mesh(doc, model) {
                Result::Ok(_) => {},
                Result::Err(e) => {
                    return Result::Err(e);
                },
            }
            proof {
                assert forall|k: int| 0 <= k < i + 1 implies #[trigger] mesh_corresponds(
                    me,
                    *doc,
                    k,
                ) by {
                    if k < i as int {
                        assert(mesh_corresponds(prev, *doc, k));
                        assert(me.scene.meshes@[k] == prev.scene.meshes@[k]) by {
                            assert(prev.scene.meshes@ == me.scene.meshes@.subrange(
                                0,
                                prev.scene.meshes@.len() as int,
                            ));
                        }
                        let mesh = me.scene.meshes@[k];
                        let mdl = doc.models@[k];
                        assert(mdl.geometry_id matches Option::Some(gid)
                            && prev.geometry_mesh_indices@.contains_key(gid)
                            && mesh.geometry_mesh_index.0 == prev.geometry_mesh_indices@[gid]);
                        assert forall|s: int|
                            0 <= s < mdl.material_ids@.len()
                                implies me.material_indices@.contains_key(
                                #[trigger] mdl.material_ids@[s],
                            ) && mesh.materials@[s].0
                                == me.material_indices@[mdl.material_ids@[s]] by {
                            assert(prev.material_indices@.contains_key(mdl.material_ids@[s]));
                        }
                    } else {
                        assert(!prev.mesh_indices@.contains_key(model.id));
                        let mesh = me.scene.meshes@.last();
                        assert(me.scene.meshes@[k] == mesh);
                    }
                }
                assert forall|gid: i64| #[trigger]
                    me.geometry_mesh_indices@.contains_key(gid) implies {
                    let j = first_geometry_ref(doc.models@, gid);
                    &&& 0 <= j < i + 1
                    &&& exists|gi: int|
                        0 <= gi < doc.geometries@.len() && (#[trigger] doc.geometries@[gi]).id
                            == gid && built_geometry_matches(
                            me.scene.geometry_meshes@[me.geometry_mesh_indices@[gid] as int],
                            doc.geometries@[gi],
                            doc.models@[first_geometry_ref(
                                doc.models@,
                                gid,
                            )].material_ids@.len() as int,
                        )
                } by {
                    if prev.geometry_mesh_indices@.contains_key(gid) {
                        let v = prev.geometry_mesh_indices@[gid];
                        assert(me.geometry_mesh_indices@[gid] == v);
                        assert((v as int) < prev.scene.geometry_meshes@.len());
                        assert(me.scene.geometry_meshes@[v as int]
                            == prev.scene.geometry_meshes@[v as int]) by {
                            assert(prev.scene.geometry_meshes@
                                == me.scene.geometry_meshes@.subrange(
                                0,
                                prev.scene.geometry_meshes@.len() as int,
                            ));
                        }
                        let gi = choose|gi: int|
                            0 <= gi < doc.geometries@.len() && (#[trigger] doc.geometries@[gi]).id
                                == gid && built_geometry_matches(
                                prev.scene.geometry_meshes@[prev.geometry_mesh_indices@[gid] as int],
                                doc.geometries@[gi],
                                doc.models@[first_geometry_ref(
                                    doc.models@,
                                    gid,
                                )].material_ids@.len() as int,
                            );
                        assert(built_geometry_matches(
                            me.scene.geometry_meshes@[me.geometry_mesh_indices@[gid] as int],
                            doc.geometries@[gi],
                            doc.models@[first_geometry_ref(
                                doc.models@,
                                gid,
                            )].material_ids@.len() as int,
                        ));
                    } else {
                        // Freshly cached by this iteration: this model's
                        // geometry, first referenced here.
                        assert(model.geometry_id == Option::Some(gid));
                        assert forall|k: int| 0 <= k < i implies doc.models@[k].geometry_id
                            != Option::Some(gid) by {
                            assert(mesh_corresponds(prev, *doc, k));
                            if doc.models@[k].geometry_id == Option::Some(gid) {
                                assert(prev.geometry_mesh_indices@.contains_key(gid));
                                assert(false);
                            }
                        }
                        lemma_first_geometry_ref(doc.models@, gid);
                        let f = first_geometry_ref(doc.models@, gid);
                        if f > i as int {
                            assert(doc.models@[i as int].geometry_id != Option::Some(gid));
                            assert(false);
                        }
                        if f < i as int {
                            assert(doc.models@[f].geometry_id == Option::Some(gid));
                            assert(false);
                        }
                        assert(f == i as int);
                        assert(me.geometry_mesh_indices@[gid]
                            == prev.scene.geometry_meshes@.len());
                        assert(me.scene.geometry_meshes@[me.geometry_mesh_indices@[gid] as int]
                            == me.scene.geometry_meshes@.last());
                        assert(doc.models@[f].material_ids@.len()
                            == model.material_ids@.len());
                    }
                }
            }
            i = i + 1;
        }
        proof {
            lemma_scene_reflects(&me, doc);
        }
        Result::Ok(me.scene)
    }
}

/// Loads the scene from the document: every mesh-model object, with shared
/// geometry, material and texture objects deduplicated by object identity.
pub fn from_doc(doc: &Document) -> (r: Result<Scene, Error>)
    requires
        doc.wf(),
    ensures
        match r {
            Result::Ok(scene) => scene.wf() && scene_reflects_document(scene, *doc),
            Result::Err(_) => true,
        },
        (forall|i: int|
            0 <= i < doc.models@.len() ==> spec_mesh_loadable(*doc, #[trigger] doc.models@[i]))
            ==> r is Ok,
{
    Loader::new().load(doc)
}

/// Per-mesh names, slot counts and geometry content, and the pairwise geometry dedup, once every model is processed.
#[verifier::rlimit(100)]
proof fn lemma_reflect_geometry(l: &Loader, doc: &Document)
    requires
        doc.wf(),
        l.wf(*doc),
        caches_faithful(*l, *doc),
        l.scene.meshes@.len() == doc.models@.len(),
        forall|k: int| 0 <= k < doc.models@.len() ==> #[trigger] mesh_corresponds(*l, *doc, k),
        forall|gid: i64| #[trigger]
            l.geometry_mesh_indices@.contains_key(gid) ==> {
                let j = first_geometry_ref(doc.models@, gid);
                &&& 0 <= j < doc.models@.len()
                &&& exists|gi: int|
                    0 <= gi < doc.geometries@.len() && (#[trigger] doc.geometries@[gi]).id == gid
                        && built_geometry_matches(
                        l.scene.geometry_meshes@[l.geometry_mesh_indices@[gid] as int],
                        doc.geometries@[gi],
                        doc.models@[j].material_ids@.len() as int,
                    )
            },
    ensures
        forall|k: int|
            0 <= k < doc.models@.len() ==> {
                let mesh = #[trigger] l.scene.meshes@[k];
                &&& mesh.name == doc.models@[k].name
                &&& mesh.materials@.len() == doc.models@[k].material_ids@.len()
                &&& doc.models@[k].geometry_id matches Option::Some(gid) && (
                mesh.geometry_mesh_index.0 as int) < l.scene.geometry_meshes@.len() && {
                    let j = first_geometry_ref(doc.models@, gid);
                    &&& 0 <= j < doc.models@.len()
                    &&& exists|gi: int|
                        0 <= gi < doc.geometries@.len() && (#[trigger] doc.geometries@[gi]).id
                            == gid && built_geometry_matches(
                            l.scene.geometry_meshes@[mesh.geometry_mesh_index.0 as int],
                            doc.geometries@[gi],
                            doc.models@[j].material_ids@.len() as int,
                        )
                }
            },
        forall|a: int, b: int|
            0 <= a < doc.models@.len() && 0 <= b < doc.models@.len() && (
            #[trigger] doc.models@[a]).geometry_id == (
            #[trigger] doc.models@[b]).geometry_id ==> l.scene.meshes@[a].geometry_mesh_index
            == l.scene.meshes@[b].geometry_mesh_index,
{
        assert forall|k: int|
            0 <= k < doc.models@.len() implies {
                let mesh = #[trigger] l.scene.meshes@[k];
                &&& mesh.name == doc.models@[k].name
                &&& mesh.materials@.len() == doc.models@[k].material_ids@.len()
                &&& doc.models@[k].geometry_id matches Option::Some(gid) && (
                mesh.geometry_mesh_index.0 as int) < l.scene.geometry_meshes@.len() && {
                    let j = first_geometry_ref(doc.models@, gid);
                    &&& 0 <= j < doc.models@.len()
                    &&& exists|gi: int|
                        0 <= gi < doc.geometries@.len() && (#[trigger] doc.geometries@[gi]).id
                            == gid && built_geometry_matches(
                            l.scene.geometry_meshes@[mesh.geometry_mesh_index.0 as int],
                            doc.geometries@[gi],
                            doc.models@[j].material_ids@.len() as int,
                        )
                }
            } by {
            assert(mesh_corresponds(*l, *doc, k));
            let mesh = l.scene.meshes@[k];
            match doc.models@[k].geometry_id {
                Option::Some(gid) => {
                    assert(l.geometry_mesh_indices@.contains_key(gid));
                    assert(mesh.geometry_mesh_index.0 == l.geometry_mesh_indices@[gid]);
                    let gi = choose|gi: int|
                        0 <= gi < doc.geometries@.len() && (#[trigger] doc.geometries@[gi]).id
                            == gid && built_geometry_matches(
                            l.scene.geometry_meshes@[l.geometry_mesh_indices@[gid] as int],
                            doc.geometries@[gi],
                            doc.models@[first_geometry_ref(
                                doc.models@,
                                gid,
                            )].material_ids@.len() as int,
                        );
                    assert(built_geometry_matches(
                        l.scene.geometry_meshes@[mesh.geometry_mesh_index.0 as int],
                        doc.geometries@[gi],
                        doc.models@[first_geometry_ref(
                            doc.models@,
                            gid,
                        )].material_ids@.len() as int,
                    ));
                },
                Option::None => {},
            }
        }
        assert forall|a: int, b: int|
            0 <= a < doc.models@.len() && 0 <= b < doc.models@.len() && (
            #[trigger] doc.models@[a]).geometry_id == (
            #[trigger] doc.models@[b]).geometry_id implies l.scene.meshes@[a].geometry_mesh_index
            == l.scene.meshes@[b].geometry_mesh_index by {
            assert(mesh_corresponds(*l, *doc, a));
            assert(mesh_corresponds(*l, *doc, b));
            assert(l.scene.meshes@[a].geometry_mesh_index.0
                == l.scene.meshes@[b].geometry_mesh_index.0);
        }
}

/// Per-slot material and texture content, once every model is processed.
#[verifier::rlimit(100)]
proof fn lemma_reflect_materials(l: &Loader, doc: &Document)
    requires
        doc.wf(),
        l.wf(*doc),
        caches_faithful(*l, *doc),
        l.scene.meshes@.len() == doc.models@.len(),
        forall|k: int| 0 <= k < doc.models@.len() ==> #[trigger] mesh_corresponds(*l, *doc, k),
    ensures
        forall|k: int, s: int|
            0 <= k < doc.models@.len() && 0 <= s < doc.models@[k].material_ids@.len()
                ==> #[trigger] slot_reflects(l.scene, *doc, k, s),
{
    assert forall|k: int, s: int|
        0 <= k < doc.models@.len() && 0 <= s
            < doc.models@[k].material_ids@.len() implies #[trigger] slot_reflects(
        l.scene,
        *doc,
        k,
        s,
    ) by {
        assert(mesh_corresponds(*l, *doc, k));
        let mesh = l.scene.meshes@[k];
        let mid = doc.models@[k].material_ids@[s];
        assert(l.material_indices@.contains_key(mid));
        assert(mesh.materials@[s].0 == l.material_indices@[mid]);
        let mi = choose|mi: int|
            0 <= mi < doc.materials@.len() && (#[trigger] doc.materials@[mi]).id == mid && {
                let mat = l.scene.materials@[l.material_indices@[mid] as int];
                &&& built_material_matches(mat, doc.materials@[mi])
                &&& match spec_chosen_texture(doc.materials@[mi]) {
                    Option::Some(tid) => mat.diffuse_texture matches Option::Some(ti)
                        && l.texture_indices@.contains_key(tid) && ti.0
                        == l.texture_indices@[tid],
                    Option::None => mat.diffuse_texture is None,
                }
            };
        let mat = l.scene.materials@[mesh.materials@[s].0 as int];
        assert(mat == l.scene.materials@[l.material_indices@[mid] as int]);
        assert(built_material_matches(mat, doc.materials@[mi]));
        match spec_chosen_texture(doc.materials@[mi]) {
            Option::Some(tid) => {
                assert(l.texture_indices@.contains_key(tid));
                assert(built_texture_matches(
                    l.scene.textures@[l.texture_indices@[tid] as int],
                    *doc,
                    tid,
                ));
            },
            Option::None => {},
        }
        assert((mesh.materials@[s].0 as int) < l.scene.materials@.len());
        assert(0 <= mi < doc.materials@.len() && doc.materials@[mi].id == mid && {
            let mat2 = l.scene.materials@[mesh.materials@[s].0 as int];
            &&& built_material_matches(mat2, doc.materials@[mi])
            &&& match spec_chosen_texture(doc.materials@[mi]) {
                Option::Some(tid) => mat2.diffuse_texture matches Option::Some(ti) && (
                ti.0 as int) < l.scene.textures@.len() && built_texture_matches(
                    l.scene.textures@[ti.0 as int],
                    *doc,
                    tid,
                ),
                Option::None => mat2.diffuse_texture is None,
            }
        });
        assert(slot_reflects(l.scene, *doc, k, s));
    }
}

/// The pairwise material dedup: slots naming one material object share one
/// scene material index.
#[verifier::rlimit(100)]
proof fn lemma_reflect_material_dedup(l: &Loader, doc: &Document)
    requires
        doc.wf(),
        l.wf(*doc),
        caches_faithful(*l, *doc),
        l.scene.meshes@.len() == doc.models@.len(),
        forall|k: int| 0 <= k < doc.models@.len() ==> #[trigger] mesh_corresponds(*l, *doc, k),
    ensures
        forall|a: int, b: int, s: int, t: int|
            #![trigger doc.models@[a].material_ids@[s], doc.models@[b].material_ids@[t]]
            0 <= a < doc.models@.len() && 0 <= b < doc.models@.len() && 0 <= s
                < doc.models@[a].material_ids@.len() && 0 <= t
                < doc.models@[b].material_ids@.len()
                && doc.models@[a].material_ids@[s] == doc.models@[b].material_ids@[t]
            ==> l.scene.meshes@[a].materials@[s]
            == l.scene.meshes@[b].materials@[t],
{
        assert forall|a: int, b: int, s: int, t: int|
            #![trigger doc.models@[a].material_ids@[s], doc.models@[b].material_ids@[t]]
            0 <= a < doc.models@.len() && 0 <= b < doc.models@.len() && 0 <= s
                < doc.models@[a].material_ids@.len() && 0 <= t
                < doc.models@[b].material_ids@.len()
                && doc.models@[a].material_ids@[s] == doc.models@[b].material_ids@[t]
            implies l.scene.meshes@[a].materials@[s]
            == l.scene.meshes@[b].materials@[t] by {
            assert(mesh_corresponds(*l, *doc, a));
            assert(mesh_corresponds(*l, *doc, b));
            assert(l.scene.meshes@[a].materials@[s].0 == l.scene.meshes@[b].materials@[t].0);
        }
}

/// The pairwise texture dedup: slots whose document materials select the same texture share one scene texture index.
#[verifier::rlimit(100)]
proof fn lemma_reflect_textures(l: &Loader, doc: &Document)
    requires
        doc.wf(),
        l.wf(*doc),
        caches_faithful(*l, *doc),
        l.scene.meshes@.len() == doc.models@.len(),
        forall|k: int| 0 <= k < doc.models@.len() ==> #[trigger] mesh_corresponds(*l, *doc, k),
    ensures
        forall|k: int, s: int, k2: int, s2: int|
            #![trigger doc.models@[k].material_ids@[s], doc.models@[k2].material_ids@[s2]]
            0 <= k < doc.models@.len() && 0 <= s < doc.models@[k].material_ids@.len() && 0
                <= k2 < doc.models@.len() && 0 <= s2 < doc.models@[k2].material_ids@.len()
                && chosen_texture_of(*doc, doc.models@[k].material_ids@[s]) is Some
                && chosen_texture_of(*doc, doc.models@[k].material_ids@[s])
                == chosen_texture_of(
                *doc,
                doc.models@[k2].material_ids@[s2],
            ) ==> l.scene.materials@[l.scene.meshes@[k].materials@[s].0 as int].diffuse_texture
            == l.scene.materials@[l.scene.meshes@[k2].materials@[s2].0 as int].diffuse_texture,
{
        assert forall|k: int, s: int, k2: int, s2: int|
            #![trigger doc.models@[k].material_ids@[s], doc.models@[k2].material_ids@[s2]]
            0 <= k < doc.models@.len() && 0 <= s < doc.models@[k].material_ids@.len() && 0
                <= k2 < doc.models@.len() && 0 <= s2 < doc.models@[k2].material_ids@.len()
                && chosen_texture_of(*doc, doc.models@[k].material_ids@[s]) is Some
                && chosen_texture_of(*doc, doc.models@[k].material_ids@[s])
                == chosen_texture_of(
                *doc,
                doc.models@[k2].material_ids@[s2],
            ) implies l.scene.materials@[l.scene.meshes@[k].materials@[s].0 as int].diffuse_texture
            == l.scene.materials@[l.scene.meshes@[k2].materials@[s2].0 as int].diffuse_texture by {
            lemma_chosen_texture_pin(l, doc, k, s);
            lemma_chosen_texture_pin(l, doc, k2, s2);
            let mid1 = doc.models@[k].material_ids@[s];
            let mid2 = doc.models@[k2].material_ids@[s2];
            let tid = chosen_texture_of(*doc, mid1)->0;
            assert(l.scene.materials@[l.scene.meshes@[k].materials@[s].0 as int].diffuse_texture
                matches Option::Some(ti1) && ti1.0 == l.texture_indices@[tid]);
            assert(l.scene.materials@[l.scene.meshes@[k2].materials@[s2].0 as int].diffuse_texture
                matches Option::Some(ti2) && ti2.0 == l.texture_indices@[tid]);
        }
}

/// Assembles [`scene_reflects_document`] from the loader's invariants once
/// every model has been processed.
proof fn lemma_scene_reflects(l: &Loader, doc: &Document)
    requires
        doc.wf(),
        l.wf(*doc),
        caches_faithful(*l, *doc),
        l.scene.meshes@.len() == doc.models@.len(),
        forall|k: int| 0 <= k < doc.models@.len() ==> #[trigger] mesh_corresponds(*l, *doc, k),
        forall|gid: i64| #[trigger]
            l.geometry_mesh_indices@.contains_key(gid) ==> {
                let j = first_geometry_ref(doc.models@, gid);
                &&& 0 <= j < doc.models@.len()
                &&& exists|gi: int|
                    0 <= gi < doc.geometries@.len() && (#[trigger] doc.geometries@[gi]).id == gid
                        && built_geometry_matches(
                        l.scene.geometry_meshes@[l.geometry_mesh_indices@[gid] as int],
                        doc.geometries@[gi],
                        doc.models@[j].material_ids@.len() as int,
                    )
            },
    ensures
        scene_reflects_document(l.scene, *doc),
{
    lemma_reflect_geometry(l, doc);
    lemma_reflect_materials(l, doc);
    lemma_reflect_material_dedup(l, doc);
    lemma_reflect_textures(l, doc);
}

/// When mesh slot `(k, s)` of a loaded scene names a material whose document
/// object selects texture `tid`, the scene material's diffuse texture index
/// is the loader's cache entry for `tid`.
proof fn lemma_chosen_texture_pin(l: &Loader, doc: &Document, k: int, s: int)
    requires
        doc.wf(),
        l.wf(*doc),
        caches_faithful(*l, *doc),
        0 <= k < doc.models@.len(),
        0 <= s < doc.models@[k].material_ids@.len(),
        mesh_corresponds(*l, *doc, k),
        chosen_texture_of(*doc, doc.models@[k].material_ids@[s]) is Some,
    ensures
        ({
            let tid = chosen_texture_of(*doc, doc.models@[k].material_ids@[s])->0;
            &&& l.texture_indices@.contains_key(tid)
            &&& l.scene.materials@[l.scene.meshes@[k].materials@[s].0 as int].diffuse_texture
                matches Option::Some(ti) && ti.0 == l.texture_indices@[tid]
        }),
{
    let mid = doc.models@[k].material_ids@[s];
    assert(l.material_indices@.contains_key(mid));
    assert(l.scene.meshes@[k].materials@[s].0 == l.material_indices@[mid]);
    let mi = choose|mi: int|
        0 <= mi < doc.materials@.len() && (#[trigger] doc.materials@[mi]).id == mid && {
            let mat = l.scene.materials@[l.material_indices@[mid] as int];
            &&& built_material_matches(mat, doc.materials@[mi])
            &&& match spec_chosen_texture(doc.materials@[mi]) {
                Option::Some(tid) => mat.diffuse_texture matches Option::Some(ti)
                    && l.texture_indices@.contains_key(tid) && ti.0 == l.texture_indices@[tid],
                Option::None => mat.diffuse_texture is None,
            }
        };
    let c = choose|i: int|
        0 <= i < doc.materials@.len() && (#[trigger] doc.materials@[i]).id == mid;
    assert(doc.material_ids()[c] == doc.materials@[c].id);
    assert(doc.material_ids()[mi] == doc.materials@[mi].id);
    if c != mi {
        assert(false);
    }
    assert(chosen_texture_of(*doc, mid) == spec_chosen_texture(doc.materials@[mi]));
}

/// Clones an optional name.
fn clone_name(n: &Option<String>) -> (r: Option<String>)
    ensures
        r == *n,
{
    match n {
        Option::Some(s) => Option::Some(s.clone()),
        Option::None => Option::None,
    }
}

/// A fresh bucket list sums to zero.
proof fn lemma_sum_all_empty(s: Seq<Vec<u32>>)
    requires
        forall|k: int| 0 <= k < s.len() ==> (#[trigger] s[k])@.len() == 0,
    ensures
        sum_bucket_lens(s) == 0,
    decreases s.len(),
{
    if s.len() > 0 {
        lemma_sum_all_empty(s.drop_last());
    }
}

/// The material's shading model property reads `Lambert` or `Phong`.
pub open spec fn spec_shading_recognized(m: document::MaterialData) -> bool {
    match m.shading_model {
        Option::Some(s) => s@ == "Lambert"@ || s@ == "Phong"@,
        Option::None => false,
    }
}

/// The shading model property was read but names no supported model.
pub open spec fn spec_shading_unrecognized(m: document::MaterialData) -> bool {
    match m.shading_model {
        Option::Some(s) => !(s@ == "Lambert"@ || s@ == "Phong"@),
        Option::None => false,
    }
}

/// Every colour and factor property of the material could be read.
pub open spec fn spec_colors_present(m: document::MaterialData) -> bool {
    &&& m.ambient_color is Some
    &&& m.ambient_factor is Some
    &&& m.diffuse_color is Some
    &&& m.diffuse_factor is Some
    &&& m.emissive_color is Some
    &&& m.emissive_factor is Some
}

/// The texture slot the material resolves: the transparent slot wins over the
/// plain diffuse slot.
pub open spec fn spec_chosen_texture(m: document::MaterialData) -> Option<i64> {
    match m.transparent_texture_id {
        Option::Some(tid) => Option::Some(tid),
        Option::None => m.diffuse_texture_id,
    }
}

/// The material's texture reference, if any, can be satisfied: already
/// cached, or loadable from the document.
pub open spec fn spec_texture_ref_ok(
    tex_cache: Map<i64, u32>,
    doc: Document,
    m: document::MaterialData,
) -> bool {
    match spec_chosen_texture(m) {
        Option::Some(tid) => tex_cache.contains_key(tid) || spec_texture_loadable(doc, tid),
        Option::None => true,
    }
}

/// Loading this material from the document alone is owed to succeed.
pub open spec fn spec_material_loadable(doc: Document, m: document::MaterialData) -> bool {
    &&& spec_shading_recognized(m)
    &&& spec_colors_present(m)
    &&& match spec_chosen_texture(m) {
        Option::Some(tid) => spec_texture_loadable(doc, tid),
        Option::None => true,
    }
}

/// Loading this mesh-model from the document alone is owed to succeed: its
/// geometry exists and builds under its own slot count, and every referenced
/// material exists and loads.
pub open spec fn spec_mesh_loadable(doc: Document, model: document::ModelData) -> bool {
    &&& match model.geometry_id {
        Option::Some(gid) => exists|i: int|
            0 <= i < doc.geometries@.len() && (#[trigger] doc.geometries@[i]).id == gid
                && spec_build_geometry(
                doc.geometries@[i],
                model.material_ids@.len() as int,
            ) is Ok,
        Option::None => false,
    }
    &&& forall|s: int|
        0 <= s < model.material_ids@.len() ==> exists|mi: int|
            0 <= mi < doc.materials@.len() && (#[trigger] doc.materials@[mi]).id == (
            #[trigger] model.material_ids@[s]) && spec_material_loadable(doc, doc.materials@[mi])
}

/// The resolved position of every triangle corner, or the error when some
/// corner does not reach a control point.
pub open spec fn spec_build_positions(cps: Seq<Point3>, raw: Seq<i32>, pvs: Seq<usize>) -> Result<
    Seq<Point3>,
    Error,
> {
    if forall|j: int| 0 <= j < pvs.len() ==> pvi_ok(cps, raw, #[trigger] pvs[j] as int) {
        Result::Ok(Seq::new(pvs.len(), |j: int| point_at(cps, raw, pvs[j] as int)))
    } else {
        Result::Err(Error::IndexOutOfRange)
    }
}

/// The resolved normal of every triangle corner, or the error of the first
/// corner that fails.
pub open spec fn spec_build_normals(
    layer: LayerElementNormal,
    raw: Seq<i32>,
    pvs: Seq<usize>,
    pis: Seq<usize>,
) -> Result<Seq<Vector3>, Error> {
    if layer.mapping == MappingMode::ByEdge && pvs.len() > 0 {
        Result::Err(Error::DocumentAccessError)
    } else if forall|j: int|
        0 <= j < pvs.len() ==> (#[trigger] spec_resolve_normal(layer, raw, pvs, pis, j)) is Ok {
        Result::Ok(Seq::new(pvs.len(), |j: int| spec_resolve_normal(layer, raw, pvs, pis, j)->Ok_0))
    } else {
        Result::Err(Error::IndexOutOfRange)
    }
}

/// The resolved UV of every triangle corner, or the error of the first corner
/// that fails.
pub open spec fn spec_build_uvs(
    layer: LayerElementUv,
    raw: Seq<i32>,
    pvs: Seq<usize>,
    pis: Seq<usize>,
) -> Result<Seq<Point2>, Error> {
    if layer.mapping == MappingMode::ByEdge && pvs.len() > 0 {
        Result::Err(Error::DocumentAccessError)
    } else if forall|j: int|
        0 <= j < pvs.len() ==> (#[trigger] spec_resolve_uv(layer, raw, pvs, pis, j)) is Ok {
        Result::Ok(Seq::new(pvs.len(), |j: int| spec_resolve_uv(layer, raw, pvs, pis, j)->Ok_0))
    } else {
        Result::Err(Error::IndexOutOfRange)
    }
}

/// The resolved mesh-local material slot of every triangle corner.
pub open spec fn spec_build_slots(
    layer: LayerElementMaterial,
    raw: Seq<i32>,
    pvs: Seq<usize>,
    pis: Seq<usize>,
) -> Result<Seq<u32>, Error> {
    if layer.mapping == MappingMode::ByEdge && pvs.len() > 0 {
        Result::Err(Error::DocumentAccessError)
    } else if forall|j: int|
        0 <= j < pvs.len() ==> (#[trigger] spec_resolve_material(layer, raw, pvs, pis, j)) is Ok {
        Result::Ok(
            Seq::new(pvs.len(), |j: int| spec_resolve_material(layer, raw, pvs, pis, j)->Ok_0),
        )
    } else {
        Result::Err(Error::IndexOutOfRange)
    }
}

/// The triangle corners assigned to material slot `m`, in emission order.
pub open spec fn spec_bucket(slots: Seq<u32>, m: int) -> Seq<u32>
    decreases slots.len(),
{
    if slots.len() == 0 {
        Seq::empty()
    } else {
        spec_bucket(slots.drop_last(), m) + if slots.last() == m {
            seq![(slots.len() - 1) as u32]
        } else {
            Seq::empty()
        }
    }
}

/// One more slot lands in exactly one bucket.
proof fn lemma_spec_bucket_push(slots: Seq<u32>, v: u32, m: int)
    ensures
        slots.push(v).len() >= 1,
        spec_bucket(slots.push(v), m) == if v == m {
            spec_bucket(slots, m).push(slots.len() as u32)
        } else {
            spec_bucket(slots, m)
        },
{
    assert(slots.push(v).drop_last() =~= slots);
    assert(slots.push(v).last() == v);
    if v == m {
        assert(spec_bucket(slots, m) + seq![slots.len() as u32] =~= spec_bucket(slots, m).push(
            slots.len() as u32,
        ));
    } else {
        assert(spec_bucket(slots, m) + Seq::<u32>::empty() =~= spec_bucket(slots, m));
    }
}

/// Total number of corner indices over all buckets.
pub open spec fn sum_bucket_lens(s: Seq<Vec<u32>>) -> int
    decreases s.len(),
{
    if s.len() == 0 {
        0
    } else {
        sum_bucket_lens(s.drop_last()) + s.last()@.len()
    }
}

/// Replacing one bucket changes the total by the length difference.
proof fn lemma_sum_update(s: Seq<Vec<u32>>, k: int, v: Vec<u32>)
    requires
        0 <= k < s.len(),
    ensures
        sum_bucket_lens(s.update(k, v)) == sum_bucket_lens(s) - s[k]@.len() + v@.len(),
    decreases s.len(),
{
    if k == s.len() - 1 {
        assert(s.update(k, v).drop_last() =~= s.drop_last());
        assert(s.update(k, v).last() == v);
    } else {
        assert(s.update(k, v).drop_last() =~= s.drop_last().update(k, v));
        assert(s.update(k, v).last() == s.last());
        lemma_sum_update(s.drop_last(), k, v);
    }
}

/// What building one geometry mesh yields: the three parallel per-corner
/// attribute arrays plus the per-slot corner index lists, or the first error
/// of the pipeline (triangulation, position, normal, UV, then material).
pub open spec fn spec_build_geometry(g: GeometryData, num_materials: int) -> Result<
    (Seq<Point3>, Seq<Vector3>, Seq<Point2>, Seq<Seq<u32>>),
    Error,
> {
    let cps = g.control_points@;
    let raw = g.polygon_vertex_indices@;
    match spec_triangulation(cps, raw) {
        Result::Err(e) => Result::Err(e),
        Result::Ok(t) => match spec_build_positions(cps, raw, t.0) {
            Result::Err(e) => Result::Err(e),
            Result::Ok(positions) => match g.normals {
                Option::None => Result::Err(Error::MissingLayer),
                Option::Some(nl) => match spec_build_normals(nl, raw, t.0, t.1) {
                    Result::Err(e) => Result::Err(e),
                    Result::Ok(normals) => match g.uv {
                        Option::None => Result::Err(Error::MissingLayer),
                        Option::Some(ul) => match spec_build_uvs(ul, raw, t.0, t.1) {
                            Result::Err(e) => Result::Err(e),
                            Result::Ok(uvs) => match g.materials {
                                Option::None => Result::Err(Error::MissingLayer),
                                Option::Some(ml) => match spec_build_slots(ml, raw, t.0, t.1) {
                                    Result::Err(e) => Result::Err(e),
                                    Result::Ok(slots) => if exists|j: int|
                                        0 <= j < slots.len() && (#[trigger] slots[j]) as int
                                            >= num_materials {
                                        Result::Err(Error::IndexOutOfRange)
                                    } else {
                                        Result::Ok(
                                            (
                                                positions,
                                                normals,
                                                uvs,
                                                Seq::new(
                                                    num_materials as nat,
                                                    |m: int| spec_bucket(slots, m),
                                                ),
                                            ),
                                        )
                                    },
                                },
                            },
                        },
                    },
                },
            },
        },
    }
}

/// Total number of corner indices over a bucket list in spec form.
pub open spec fn sum_seq_lens(s: Seq<Seq<u32>>) -> int
    decreases s.len(),
{
    if s.len() == 0 {
        0
    } else {
        sum_seq_lens(s.drop_last()) + s.last().len()
    }
}

/// A bucket list of empty buckets sums to zero.
proof fn lemma_sum_seq_empty(s: Seq<Seq<u32>>)
    requires
        forall|k: int| 0 <= k < s.len() ==> (#[trigger] s[k]).len() == 0,
    ensures
        sum_seq_lens(s) == 0,
    decreases s.len(),
{
    if s.len() > 0 {
        lemma_sum_seq_empty(s.drop_last());
    }
}

/// Replacing one bucket changes the total by the length difference.
proof fn lemma_sum_seq_update(s: Seq<Seq<u32>>, k: int, v: Seq<u32>)
    requires
        0 <= k < s.len(),
    ensures
        sum_seq_lens(s.update(k, v)) == sum_seq_lens(s) - s[k].len() + v.len(),
    decreases s.len(),
{
    if k == s.len() - 1 {
        assert(s.update(k, v).drop_last() =~= s.drop_last());
        assert(s.update(k, v).last() == v);
    } else {
        assert(s.update(k, v).drop_last() =~= s.drop_last().update(k, v));
        assert(s.update(k, v).last() == s.last());
        lemma_sum_seq_update(s.drop_last(), k, v);
    }
}

/// Bucketing partitions the corners: when every slot is in range, the bucket
/// lengths sum to the corner count.
proof fn lemma_bucket_total(slots: Seq<u32>, num: int)
    requires
        num >= 0,
        forall|j: int| 0 <= j < slots.len() ==> (#[trigger] slots[j]) < num,
    ensures
        sum_seq_lens(Seq::new(num as nat, |m: int| spec_bucket(slots, m))) == slots.len(),
    decreases slots.len(),
{
    let buckets = Seq::new(num as nat, |m: int| spec_bucket(slots, m));
    if slots.len() == 0 {
        assert forall|k: int| 0 <= k < buckets.len() implies (#[trigger] buckets[k]).len()
            == 0 by {
            assert(buckets[k] == spec_bucket(slots, k));
        }
        lemma_sum_seq_empty(buckets);
    } else {
        let p = slots.drop_last();
        let v = slots.last();
        assert(forall|j: int| 0 <= j < p.len() ==> (#[trigger] p[j]) == slots[j]);
        lemma_bucket_total(p, num);
        let prev = Seq::new(num as nat, |m: int| spec_bucket(p, m));
        assert forall|m: int| 0 <= m < num implies #[trigger] buckets[m] == prev.update(
            v as int,
            prev[v as int].push(p.len() as u32),
        )[m] by {
            lemma_spec_bucket_push(p, v, m);
            assert(p.push(v) =~= slots);
        }
        assert(buckets =~= prev.update(v as int, prev[v as int].push(p.len() as u32)));
        lemma_sum_seq_update(prev, v as int, prev[v as int].push(p.len() as u32));
    }
}

/// The shape of every successfully built geometry mesh: the three attribute
/// arrays run in parallel, there is one bucket per material slot, and the
/// flattened union of the buckets holds three corner indices per emitted
/// triangle.
pub proof fn lemma_build_geometry_shape(g: GeometryData, num_materials: int)
    requires
        num_materials >= 0,
    ensures
        match spec_build_geometry(g, num_materials) {
            Result::Ok(b) => {
                &&& b.0.len() == b.1.len()
                &&& b.0.len() == b.2.len()
                &&& b.3.len() == num_materials
                &&& sum_seq_lens(b.3) == b.0.len()
                &&& match spec_triangulation(g.control_points@, g.polygon_vertex_indices@) {
                    Result::Ok(t) => b.0.len() == 3 * t.1.len(),
                    Result::Err(_) => false,
                }
            },
            Result::Err(_) => true,
        },
{
    match spec_build_geometry(g, num_materials) {
        Result::Ok(b) => {
            let cps = g.control_points@;
            let raw = g.polygon_vertex_indices@;
            lemma_triangulate_from_len(cps, raw, 0, 0);
            match spec_triangulation(cps, raw) {
                Result::Ok(t) => {
                    match g.materials {
                        Option::Some(ml) => match spec_build_slots(ml, raw, t.0, t.1) {
                            Result::Ok(slots) => {
                                assert forall|j: int| 0 <= j < slots.len() implies (
                                #[trigger] slots[j]) < num_materials by {
                                    assert(!((slots[j] as int) >= num_materials));
                                }
                                lemma_bucket_total(slots, num_materials);
                            },
                            Result::Err(_) => {},
                        },
                        Option::None => {},
                    }
                },
                Result::Err(_) => {},
            }
        },
        Result::Err(_) => {},
    }
}

/// The texture entity `tex` carries the document texture `tid`'s data: its
/// name and wrap modes, and the decoded image of its linked embedded clip.
/// (The `transparent` flag is not part of this: it records which material
/// slot loaded the texture first.)
pub open spec fn built_texture_matches(tex: Texture, doc: Document, tid: i64) -> bool {
    exists|i: int|
        0 <= i < doc.textures@.len() && (#[trigger] doc.textures@[i]).id == tid && {
            let td = doc.textures@[i];
            &&& tex.name == td.name
            &&& td.wrap_mode_u matches Option::Some(u) && tex.wrap_mode_u == spec_wrap(u)
            &&& td.wrap_mode_v matches Option::Some(v) && tex.wrap_mode_v == spec_wrap(v)
            &&& td.video_clip_id matches Option::Some(vid) && exists|ci: int|
                0 <= ci < doc.video_clips@.len() && (#[trigger] doc.video_clips@[ci]).id == vid
                    && {
                    let clip = doc.video_clips@[ci];
                    match clip.content {
                        Option::Some(bytes) => if spec_is_tga(clip.relative_filename@) {
                            tga_decoding(bytes@) == Option::Some(
                                (tex.image.width, tex.image.height, tex.image.rgba@),
                            )
                        } else {
                            image_decoding(bytes@) == Option::Some(
                                (tex.image.width, tex.image.height, tex.image.rgba@),
                            )
                        },
                        Option::None => false,
                    }
                }
        }
}

/// The material entity `mat` carries the document material `md`'s data: its
/// name, its recognized shading model, its factor-scaled Lambert colours, and
/// a diffuse texture exactly when `md` links one.
pub open spec fn built_material_matches(mat: Material, md: document::MaterialData) -> bool {
    &&& mat.name == md.name
    &&& spec_shading_recognized(md)
    &&& (md.ambient_color matches Option::Some(ac) && md.ambient_factor matches Option::Some(af)
        && md.diffuse_color matches Option::Some(dc) && md.diffuse_factor matches Option::Some(df)
        && md.emissive_color matches Option::Some(ec) && md.emissive_factor matches Option::Some(
        ef,
    ) && mat.data == ShadingData::Lambert(
        LambertData {
            ambient: crate::math::spec_scaled(ac, af),
            diffuse: crate::math::spec_scaled(dc, df),
            emissive: crate::math::spec_scaled(ec, ef),
        },
    ))
    &&& (mat.diffuse_texture is Some <==> spec_chosen_texture(md) is Some)
}

/// The geometry mesh `g` is the build of the document geometry `gd` under
/// `num_materials` slots: same name, the per-corner attribute arrays, and the
/// per-slot corner index lists, exactly as [`spec_build_geometry`] gives them.
pub open spec fn built_geometry_matches(g: GeometryMesh, gd: GeometryData, num_materials: int) -> bool {
    match spec_build_geometry(gd, num_materials) {
        Result::Ok(b) => {
            &&& g.name == gd.name
            &&& g.positions@ == b.0
            &&& g.normals@ == b.1
            &&& g.uv@ == b.2
            &&& g.indices_per_material@.len() == b.3.len()
            &&& forall|m: int|
                0 <= m < b.3.len() ==> (#[trigger] g.indices_per_material@[m])@ == b.3[m]
        },
        Result::Err(_) => false,
    }
}

/// Every identity-cache entry is faithful: the scene entity a cached id
/// points at carries that document object's data. Geometry content is
/// recorded under whatever slot count the first loading mesh supplied, hence
/// the existential count.
pub open spec fn caches_faithful(l: Loader, doc: Document) -> bool {
    &&& forall|tid: i64| #[trigger]
        l.texture_indices@.contains_key(tid) ==> built_texture_matches(
            l.scene.textures@[l.texture_indices@[tid] as int],
            doc,
            tid,
        )
    &&& forall|mid: i64| #[trigger]
        l.material_indices@.contains_key(mid) ==> exists|mi: int|
            0 <= mi < doc.materials@.len() && (#[trigger] doc.materials@[mi]).id == mid && {
                let mat = l.scene.materials@[l.material_indices@[mid] as int];
                &&& built_material_matches(mat, doc.materials@[mi])
                &&& match spec_chosen_texture(doc.materials@[mi]) {
                    Option::Some(tid) => mat.diffuse_texture matches Option::Some(ti)
                        && l.texture_indices@.contains_key(tid) && ti.0
                        == l.texture_indices@[tid],
                    Option::None => mat.diffuse_texture is None,
                }
            }
    &&& forall|gid: i64| #[trigger]
        l.geometry_mesh_indices@.contains_key(gid) ==> exists|gi: int|
            0 <= gi < doc.geometries@.len() && (#[trigger] doc.geometries@[gi]).id == gid
                && exists|count: int|
                0 <= count && #[trigger] built_geometry_matches(
                    l.scene.geometry_meshes@[l.geometry_mesh_indices@[gid] as int],
                    doc.geometries@[gi],
                    count,
                )
}

/// Faithfulness carries across one loading step: the arenas only grow at the
/// end, old cache entries survive unchanged, and each fresh cache entry was
/// shown faithful by the step itself.
proof fn lemma_faithful_step(pre: Loader, post: Loader, doc: Document)
    requires
        caches_faithful(pre, doc),
        pre.wf(doc),
        pre.scene.textures@.is_prefix_of(post.scene.textures@),
        pre.scene.materials@.is_prefix_of(post.scene.materials@),
        pre.scene.geometry_meshes@.is_prefix_of(post.scene.geometry_meshes@),
        map_extends(post.texture_indices@, pre.texture_indices@),
        map_extends(post.material_indices@, pre.material_indices@),
        map_extends(post.geometry_mesh_indices@, pre.geometry_mesh_indices@),
        forall|tid: i64|
            #[trigger] post.texture_indices@.contains_key(tid)
                && !pre.texture_indices@.contains_key(tid) ==> built_texture_matches(
                post.scene.textures@[post.texture_indices@[tid] as int],
                doc,
                tid,
            ),
        forall|mid: i64|
            #[trigger] post.material_indices@.contains_key(mid)
                && !pre.material_indices@.contains_key(mid) ==> exists|mi: int|
                0 <= mi < doc.materials@.len() && (#[trigger] doc.materials@[mi]).id == mid && {
                    let mat = post.scene.materials@[post.material_indices@[mid] as int];
                    &&& built_material_matches(mat, doc.materials@[mi])
                    &&& match spec_chosen_texture(doc.materials@[mi]) {
                        Option::Some(tid) => mat.diffuse_texture matches Option::Some(ti)
                            && post.texture_indices@.contains_key(tid) && ti.0
                            == post.texture_indices@[tid],
                        Option::None => mat.diffuse_texture is None,
                    }
                },
        forall|gid: i64|
            #[trigger] post.geometry_mesh_indices@.contains_key(gid)
                && !pre.geometry_mesh_indices@.contains_key(gid) ==> exists|gi: int|
                0 <= gi < doc.geometries@.len() && (#[trigger] doc.geometries@[gi]).id == gid
                    && exists|count: int|
                    0 <= count && #[trigger] built_geometry_matches(
                        post.scene.geometry_meshes@[post.geometry_mesh_indices@[gid] as int],
                        doc.geometries@[gi],
                        count,
                    ),
    ensures
        caches_faithful(post, doc),
{
    assert forall|tid: i64| #[trigger]
        post.texture_indices@.contains_key(tid) implies built_texture_matches(
        post.scene.textures@[post.texture_indices@[tid] as int],
        doc,
        tid,
    ) by {
        if pre.texture_indices@.contains_key(tid) {
            let v = pre.texture_indices@[tid];
            assert(post.texture_indices@[tid] == v);
            assert((v as int) < pre.scene.textures@.len());
            assert(post.scene.textures@[v as int] == pre.scene.textures@[v as int]) by {
                assert(pre.scene.textures@ == post.scene.textures@.subrange(
                    0,
                    pre.scene.textures@.len() as int,
                ));
            }
            assert(built_texture_matches(pre.scene.textures@[v as int], doc, tid));
        }
    }
    assert forall|mid: i64| #[trigger]
        post.material_indices@.contains_key(mid) implies exists|mi: int|
        0 <= mi < doc.materials@.len() && (#[trigger] doc.materials@[mi]).id == mid && {
            let mat = post.scene.materials@[post.material_indices@[mid] as int];
            &&& built_material_matches(mat, doc.materials@[mi])
            &&& match spec_chosen_texture(doc.materials@[mi]) {
                Option::Some(tid) => mat.diffuse_texture matches Option::Some(ti)
                    && post.texture_indices@.contains_key(tid) && ti.0
                    == post.texture_indices@[tid],
                Option::None => mat.diffuse_texture is None,
            }
        } by {
        if pre.material_indices@.contains_key(mid) {
            let v = pre.material_indices@[mid];
            assert(post.material_indices@[mid] == v);
            assert((v as int) < pre.scene.materials@.len());
            assert(post.scene.materials@[v as int] == pre.scene.materials@[v as int]) by {
                assert(pre.scene.materials@ == post.scene.materials@.subrange(
                    0,
                    pre.scene.materials@.len() as int,
                ));
            }
            let mi = choose|mi: int|
                0 <= mi < doc.materials@.len() && (#[trigger] doc.materials@[mi]).id == mid && {
                    let mat = pre.scene.materials@[pre.material_indices@[mid] as int];
                    &&& built_material_matches(mat, doc.materials@[mi])
                    &&& match spec_chosen_texture(doc.materials@[mi]) {
                        Option::Some(tid) => mat.diffuse_texture matches Option::Some(ti)
                            && pre.texture_indices@.contains_key(tid) && ti.0
                            == pre.texture_indices@[tid],
                        Option::None => mat.diffuse_texture is None,
                    }
                };
            let mat = post.scene.materials@[post.material_indices@[mid] as int];
            assert(mat == pre.scene.materials@[pre.material_indices@[mid] as int]);
            assert(built_material_matches(mat, doc.materials@[mi]));
            match spec_chosen_texture(doc.materials@[mi]) {
                Option::Some(tid) => {
                    assert(pre.texture_indices@.contains_key(tid));
                    assert(post.texture_indices@[tid] == pre.texture_indices@[tid]);
                },
                Option::None => {},
            }
        }
    }
    assert forall|gid: i64| #[trigger]
        post.geometry_mesh_indices@.contains_key(gid) implies exists|gi: int|
        0 <= gi < doc.geometries@.len() && (#[trigger] doc.geometries@[gi]).id == gid && exists|
            count: int,
        |
            0 <= count && #[trigger] built_geometry_matches(
                post.scene.geometry_meshes@[post.geometry_mesh_indices@[gid] as int],
                doc.geometries@[gi],
                count,
            ) by {
        if pre.geometry_mesh_indices@.contains_key(gid) {
            let v = pre.geometry_mesh_indices@[gid];
            assert(post.geometry_mesh_indices@[gid] == v);
            assert((v as int) < pre.scene.geometry_meshes@.len());
            assert(post.scene.geometry_meshes@[v as int] == pre.scene.geometry_meshes@[v as int])
                by {
                assert(pre.scene.geometry_meshes@ == post.scene.geometry_meshes@.subrange(
                    0,
                    pre.scene.geometry_meshes@.len() as int,
                ));
            }
            let gi = choose|gi: int|
                0 <= gi < doc.geometries@.len() && (#[trigger] doc.geometries@[gi]).id == gid
                    && exists|count: int|
                    0 <= count && #[trigger] built_geometry_matches(
                        pre.scene.geometry_meshes@[pre.geometry_mesh_indices@[gid] as int],
                        doc.geometries@[gi],
                        count,
                    );
            let count = choose|count: int|
                0 <= count && #[trigger] built_geometry_matches(
                    pre.scene.geometry_meshes@[pre.geometry_mesh_indices@[gid] as int],
                    doc.geometries@[gi],
                    count,
                );
            assert(built_geometry_matches(
                post.scene.geometry_meshes@[post.geometry_mesh_indices@[gid] as int],
                doc.geometries@[gi],
                count,
            ));
        }
    }
}

/// The index of the first model that references geometry `gid`, or the model
/// count when none does. Geometry objects shared between meshes are built
/// once, under this model's material slot count.
pub open spec fn first_geometry_ref(models: Seq<document::ModelData>, gid: i64) -> int
    decreases models.len(),
{
    if models.len() == 0 {
        0
    } else if models[0].geometry_id == Option::Some(gid) {
        0
    } else {
        1 + first_geometry_ref(models.skip(1), gid)
    }
}

/// What [`first_geometry_ref`] returns: the least referencing model, or the
/// model count.
pub proof fn lemma_first_geometry_ref(models: Seq<document::ModelData>, gid: i64)
    ensures
        0 <= first_geometry_ref(models, gid) <= models.len(),
        first_geometry_ref(models, gid) < models.len() ==> models[first_geometry_ref(
            models,
            gid,
        )].geometry_id == Option::Some(gid),
        forall|k: int|
            0 <= k < first_geometry_ref(models, gid) ==> models[k].geometry_id != Option::Some(
                gid,
            ),
    decreases models.len(),
{
    if models.len() != 0 && models[0].geometry_id != Option::Some(gid) {
        lemma_first_geometry_ref(models.skip(1), gid);
        assert forall|k: int|
            0 <= k < first_geometry_ref(models, gid) implies models[k].geometry_id
            != Option::Some(gid) by {
            if k > 0 {
                assert(models.skip(1)[k - 1] == models[k]);
            }
        }
        if first_geometry_ref(models, gid) < models.len() {
            assert(models.skip(1)[first_geometry_ref(models, gid) - 1] == models[
                first_geometry_ref(models, gid)]);
        }
    }
}

/// The texture id the document material `mid` selects through the
/// transparent-before-diffuse rule; `None` when no material carries `mid`.
pub open spec fn chosen_texture_of(doc: Document, mid: i64) -> Option<i64> {
    if exists|i: int| 0 <= i < doc.materials@.len() && (#[trigger] doc.materials@[i]).id == mid {
        let i = choose|i: int|
            0 <= i < doc.materials@.len() && (#[trigger] doc.materials@[i]).id == mid;
        spec_chosen_texture(doc.materials@[i])
    } else {
        Option::None
    }
}

/// Mesh slot `(k, s)` of the scene carries its document material's resolved
/// data, and that material's chosen texture, if any, its texture data.
pub open spec fn slot_reflects(scene: Scene, doc: Document, k: int, s: int) -> bool {
    let mesh = scene.meshes@[k];
    &&& (mesh.materials@[s].0 as int) < scene.materials@.len()
    &&& exists|mi: int|
        0 <= mi < doc.materials@.len() && (#[trigger] doc.materials@[mi]).id
            == doc.models@[k].material_ids@[s] && {
            let mat = scene.materials@[mesh.materials@[s].0 as int];
            &&& built_material_matches(mat, doc.materials@[mi])
            &&& match spec_chosen_texture(doc.materials@[mi]) {
                Option::Some(tid) => mat.diffuse_texture matches Option::Some(ti) && (
                ti.0 as int) < scene.textures@.len() && built_texture_matches(
                    scene.textures@[ti.0 as int],
                    doc,
                    tid,
                ),
                Option::None => mat.diffuse_texture is None,
            }
        }
}

/// The loaded scene carries the document's content: one mesh per mesh-model
/// object in order, shared objects deduplicated to one index, every geometry
/// mesh the exact build of its document geometry (under the slot count of the
/// first referencing model), and every material and texture carrying its
/// document object's resolved data.
pub open spec fn scene_reflects_document(scene: Scene, doc: Document) -> bool {
    &&& scene.meshes@.len() == doc.models@.len()
    &&& forall|k: int|
        0 <= k < doc.models@.len() ==> {
            let mesh = #[trigger] scene.meshes@[k];
            &&& mesh.name == doc.models@[k].name
            &&& mesh.materials@.len() == doc.models@[k].material_ids@.len()
            &&& doc.models@[k].geometry_id matches Option::Some(gid) && (
            mesh.geometry_mesh_index.0 as int) < scene.geometry_meshes@.len() && {
                let j = first_geometry_ref(doc.models@, gid);
                &&& 0 <= j < doc.models@.len()
                &&& exists|gi: int|
                    0 <= gi < doc.geometries@.len() && (#[trigger] doc.geometries@[gi]).id == gid
                        && built_geometry_matches(
                        scene.geometry_meshes@[mesh.geometry_mesh_index.0 as int],
                        doc.geometries@[gi],
                        doc.models@[j].material_ids@.len() as int,
                    )
            }
        }
    &&& forall|i: int, j: int|
        0 <= i < doc.models@.len() && 0 <= j < doc.models@.len() && (
        #[trigger] doc.models@[i]).geometry_id == (#[trigger] doc.models@[j]).geometry_id
            ==> scene.meshes@[i].geometry_mesh_index == scene.meshes@[j].geometry_mesh_index
    &&& forall|i: int, j: int, s: int, t: int|
        #![trigger doc.models@[i].material_ids@[s], doc.models@[j].material_ids@[t]]
        0 <= i < doc.models@.len() && 0 <= j < doc.models@.len() && 0 <= s
            < doc.models@[i].material_ids@.len() && 0 <= t < doc.models@[j].material_ids@.len()
            && doc.models@[i].material_ids@[s] == doc.models@[j].material_ids@[t]
            ==> scene.meshes@[i].materials@[s] == scene.meshes@[j].materials@[t]
    &&& forall|k: int, s: int|
        0 <= k < doc.models@.len() && 0 <= s < doc.models@[k].material_ids@.len()
            ==> #[trigger] slot_reflects(scene, doc, k, s)
    &&& forall|k: int, s: int, k2: int, s2: int|
        #![trigger doc.models@[k].material_ids@[s], doc.models@[k2].material_ids@[s2]]
        0 <= k < doc.models@.len() && 0 <= s < doc.models@[k].material_ids@.len() && 0 <= k2
            < doc.models@.len() && 0 <= s2 < doc.models@[k2].material_ids@.len()
            && chosen_texture_of(doc, doc.models@[k].material_ids@[s]) is Some
            && chosen_texture_of(doc, doc.models@[k].material_ids@[s]) == chosen_texture_of(
            doc,
            doc.models@[k2].material_ids@[s2],
        ) ==> scene.materials@[scene.meshes@[k].materials@[s].0 as int].diffuse_texture
            == scene.materials@[scene.meshes@[k2].materials@[s2].0 as int].diffuse_texture
}

/// Scene mesh `k` reflects document model `k`: same name, one material slot
/// per referenced material object, and every index agrees with the loader's
/// identity caches.
pub open spec fn mesh_corresponds(l: Loader, doc: Document, k: int) -> bool {
    let mesh = l.scene.meshes@[k];
    let model = doc.models@[k];
    &&& mesh.name == model.name
    &&& mesh.materials@.len() == model.material_ids@.len()
    &&& model.geometry_id matches Option::Some(gid) && l.geometry_mesh_indices@.contains_key(gid)
        && mesh.geometry_mesh_index.0 == l.geometry_mesh_indices@[gid]
    &&& forall|s: int|
        0 <= s < model.material_ids@.len() ==> l.material_indices@.contains_key(
            #[trigger] model.material_ids@[s],
        ) && mesh.materials@[s].0 == l.material_indices@[model.material_ids@[s]]
}

/// In a well-formed document a material id resolves to one material, so what
/// `find_material` returned is the witness of any loadability claim.
proof fn lemma_distinct_material(doc: &Document, mid: i64, found: &document::MaterialData)
    requires
        doc.wf(),
        found.id == mid,
        exists|i: int| 0 <= i < doc.materials@.len() && #[trigger] doc.materials@[i] == *found,
    ensures
        forall|i: int|
            0 <= i < doc.materials@.len() && (#[trigger] doc.materials@[i]).id == mid
                ==> doc.materials@[i] == *found,
{
    let fi = choose|i: int| 0 <= i < doc.materials@.len() && #[trigger] doc.materials@[i] == *found;
    assert forall|i: int|
        0 <= i < doc.materials@.len() && (#[trigger] doc.materials@[i]).id
            == mid implies doc.materials@[i] == *found by {
        assert(doc.material_ids()[i] == doc.materials@[i].id);
        assert(doc.material_ids()[fi] == found.id);
        if i != fi {
            assert(false);
        }
    }
}

/// In a well-formed document a geometry id resolves to one geometry, so what
/// `find_geometry` returned is the witness of any buildability claim.
proof fn lemma_distinct_geometry(doc: &Document, gid: i64, found: &GeometryData)
    requires
        doc.wf(),
        found.id == gid,
        exists|i: int| 0 <= i < doc.geometries@.len() && #[trigger] doc.geometries@[i] == *found,
    ensures
        forall|i: int|
            0 <= i < doc.geometries@.len() && (#[trigger] doc.geometries@[i]).id == gid
                ==> doc.geometries@[i] == *found,
{
    let fi = choose|i: int|
        0 <= i < doc.geometries@.len() && #[trigger] doc.geometries@[i] == *found;
    assert forall|i: int|
        0 <= i < doc.geometries@.len() && (#[trigger] doc.geometries@[i]).id
            == gid implies doc.geometries@[i] == *found by {
        assert(doc.geometry_ids()[i] == doc.geometries@[i].id);
        assert(doc.geometry_ids()[fi] == found.id);
        if i != fi {
            assert(false);
        }
    }
}

/// A cache already holding one entry per key of a distinct key list has no
/// room for a fresh key.
proof fn lemma_full_cache(m: Map<i64, u32>, ids: Seq<i64>, x: i64)
    requires
        m.dom().finite(),
        m.len() == ids.len(),
        forall|k: int| 0 <= k < ids.len() ==> m.contains_key(#[trigger] ids[k]),
        document::distinct_ids(ids),
        forall|k: int| 0 <= k < ids.len() ==> ids[k] != x,
    ensures
        !m.contains_key(x),
{
    if m.contains_key(x) {
        assert(ids.no_duplicates()) by {
            assert forall|i: int, j: int|
                0 <= i < ids.len() && 0 <= j < ids.len() && i != j implies ids[i] != ids[j] by {
                if i < j {
                    assert(ids[i] != ids[j]);
                } else {
                    assert(ids[j] != ids[i]);
                }
            }
        }
        assert(ids.to_set().subset_of(m.dom().remove(x))) by {
            assert forall|e: i64| ids.to_set().contains(e) implies m.dom().remove(x).contains(
                e,
            ) by {
                assert(ids.contains(e));
                let k = choose|k: int| 0 <= k < ids.len() && ids[k] == e;
                assert(m.contains_key(ids[k]));
                assert(ids[k] != x);
            }
        }
        ids.unique_seq_to_set();
        vstd::set_lib::lemma_len_subset(ids.to_set(), m.dom().remove(x));
        assert(m.dom().remove(x).len() == m.dom().len() - 1);
        assert(false);
    }
}

/// In a well-formed document a video-clip id resolves to one clip, so what
/// `find_video_clip` returned is the witness of any decodability claim.
proof fn lemma_distinct_clip(doc: &Document, vid: i64, found: &document::VideoClipData)
    requires
        doc.wf(),
        found.id == vid,
        exists|i: int| 0 <= i < doc.video_clips@.len() && #[trigger] doc.video_clips@[i] == *found,
    ensures
        forall|i: int|
            0 <= i < doc.video_clips@.len() && (#[trigger] doc.video_clips@[i]).id == vid
                ==> doc.video_clips@[i] == *found,
{
    let fi = choose|i: int|
        0 <= i < doc.video_clips@.len() && #[trigger] doc.video_clips@[i] == *found;
    assert forall|i: int|
        0 <= i < doc.video_clips@.len() && (#[trigger] doc.video_clips@[i]).id
            == vid implies doc.video_clips@[i] == *found by {
        assert(doc.video_clip_ids()[i] == doc.video_clips@[i].id);
        assert(doc.video_clip_ids()[fi] == found.id);
        if i != fi {
            assert(false);
        }
    }
}

/// The clip route of a texture id, settled by what `find_texture` returned:
/// the found texture's linked clip when its wrap modes and clip link are all
/// readable, and nothing otherwise.
proof fn lemma_texture_clip_route(doc: &Document, tid: i64, found: &document::TextureData)
    requires
        doc.wf(),
        found.id == tid,
        exists|i: int| 0 <= i < doc.textures@.len() && #[trigger] doc.textures@[i] == *found,
    ensures
        spec_texture_clip(*doc, tid) == (if found.wrap_mode_u is Some && found.wrap_mode_v is Some
            && found.video_clip_id is Some {
            found.video_clip_id
        } else {
            Option::<i64>::None
        }),
{
    lemma_distinct_texture(doc, tid, found);
    let fi = choose|i: int| 0 <= i < doc.textures@.len() && #[trigger] doc.textures@[i] == *found;
    if exists|i: int|
        0 <= i < doc.textures@.len() && (#[trigger] doc.textures@[i]).id == tid
            && doc.textures@[i].wrap_mode_u is Some && doc.textures@[i].wrap_mode_v is Some
            && doc.textures@[i].video_clip_id is Some {
        let c = choose|i: int|
            0 <= i < doc.textures@.len() && (#[trigger] doc.textures@[i]).id == tid
                && doc.textures@[i].wrap_mode_u is Some && doc.textures@[i].wrap_mode_v is Some
                && doc.textures@[i].video_clip_id is Some;
        assert(doc.textures@[c] == *found);
    } else {
        if found.wrap_mode_u is Some && found.wrap_mode_v is Some
            && found.video_clip_id is Some {
            assert(doc.textures@[fi].id == tid && doc.textures@[fi].wrap_mode_u is Some
                && doc.textures@[fi].wrap_mode_v is Some && doc.textures@[fi].video_clip_id
                is Some);
            assert(false);
        }
    }
}

/// In a well-formed document a texture id resolves to one texture, so what
/// `find_texture` returned is the witness of any loadability claim.
proof fn lemma_distinct_texture(doc: &Document, texture_id: i64, found: &document::TextureData)
    requires
        doc.wf(),
        found.id == texture_id,
        exists|i: int| 0 <= i < doc.textures@.len() && #[trigger] doc.textures@[i] == *found,
    ensures
        forall|i: int|
            0 <= i < doc.textures@.len() && (#[trigger] doc.textures@[i]).id == texture_id
                ==> doc.textures@[i] == *found,
{
    let fi = choose|i: int| 0 <= i < doc.textures@.len() && #[trigger] doc.textures@[i] == *found;
    assert forall|i: int|
        0 <= i < doc.textures@.len() && (#[trigger] doc.textures@[i]).id
            == texture_id implies doc.textures@[i] == *found by {
        assert(doc.texture_ids()[i] == doc.textures@[i].id);
        assert(doc.texture_ids()[fi] == found.id);
        if i != fi {
            assert(false);
        }
    }
}

} // verus!
