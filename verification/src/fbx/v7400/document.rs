//! Document-object model consumed by the loader.
//!
//! A [`Document`] is the scene-graph document reduced to plain values: object
//! ids, control points, the raw polygon-vertex index array, attribute layers,
//! shading properties and embedded media bytes. The surrounding application
//! fills it from whatever parser it uses; the loader in this crate only ever
//! reads it.

use vstd::prelude::*;

use crate::math::Point2;
use crate::math::Point3;
use crate::math::Rgb;
use crate::math::Vector3;
use crate::math::MAX_COLOR;
use crate::math::MAX_COORD;

verus! {

/// Largest accepted length for a geometry's polygon-vertex index array (2^28),
/// so that a triangle-corner count still fits in `u32`.
pub const MAX_POLYGON_VERTICES: usize = 0x1000_0000;

/// How a layer's values are attached to the geometry.
#[derive(Debug, Clone, Copy, PartialEq, Eq, Structural)]
pub enum MappingMode {
    /// One value per control point.
    ByControlPoint,
    /// One value per polygon vertex.
    ByPolygonVertex,
    /// One value per polygon.
    ByPolygon,
    /// One value per edge; not supported by the resolver.
    ByEdge,
    /// A single value for the whole geometry.
    AllSame,
}

/// How a layer's values are indexed.
#[derive(Debug, Clone, Copy, PartialEq, Eq, Structural)]
pub enum ReferenceMode {
    /// Values are used in storage order.
    Direct,
    /// Values are reached through an index array.
    IndexToDirect,
}

/// Wrap mode as stored in the document.
#[derive(Debug, Clone, Copy, PartialEq, Eq, Structural)]
pub enum RawWrapMode {
    /// Repeat.
    Repeat,
    /// Clamp.
    Clamp,
}

/// A normal layer; its values are always referenced directly.
#[derive(Debug, Clone)]
pub struct LayerElementNormal {
    /// Mapping mode.
    pub mapping: MappingMode,
    /// Normal per mapped element.
    pub normals: Vec<Vector3>,
}

/// A UV layer.
#[derive(Debug, Clone)]
pub struct LayerElementUv {
    /// Mapping mode.
    pub mapping: MappingMode,
    /// Reference mode.
    pub reference: ReferenceMode,
    /// UV values.
    pub uv: Vec<Point2>,
    /// Index array, consulted only under [`ReferenceMode::IndexToDirect`].
    pub uv_index: Vec<i32>,
}

/// A material-assignment layer; its values are always reached through the
/// index array.
#[derive(Debug, Clone)]
pub struct LayerElementMaterial {
    /// Mapping mode.
    pub mapping: MappingMode,
    /// Mesh-local material slot per mapped element.
    pub indices: Vec<i32>,
}

/// One mesh-geometry object.
#[derive(Debug, Clone)]
pub struct GeometryData {
    /// Document object id.
    pub id: i64,
    /// Name.
    pub name: Option<String>,
    /// Control points.
    pub control_points: Vec<Point3>,
    /// Raw polygon-vertex index array: each entry is a control-point index,
    /// and a negative entry `r` closes a polygon with control point `!r`.
    pub polygon_vertex_indices: Vec<i32>,
    /// Normal layer, if present.
    pub normals: Option<LayerElementNormal>,
    /// UV layer, if present.
    pub uv: Option<LayerElementUv>,
    /// Material-assignment layer, if present.
    pub materials: Option<LayerElementMaterial>,
}

impl GeometryData {
    /// Control points in range and the index array short enough to
    /// triangulate.
    pub open spec fn wf(self) -> bool {
        &&& forall|i: int|
            0 <= i < self.control_points@.len() ==> (#[trigger] self.control_points@[i]).wf()
        &&& self.polygon_vertex_indices@.len() <= MAX_POLYGON_VERTICES
    }
}

/// One material object.
#[derive(Debug, Clone)]
pub struct MaterialData {
    /// Document object id.
    pub id: i64,
    /// Name.
    pub name: Option<String>,
    /// Shading model property; `None` when the property cannot be read.
    pub shading_model: Option<String>,
    /// Ambient colour property.
    pub ambient_color: Option<Rgb>,
    /// Ambient factor property, in [`crate::math::FP_ONE`] fixed point.
    pub ambient_factor: Option<i64>,
    /// Diffuse colour property.
    pub diffuse_color: Option<Rgb>,
    /// Diffuse factor property.
    pub diffuse_factor: Option<i64>,
    /// Emissive colour property.
    pub emissive_color: Option<Rgb>,
    /// Emissive factor property.
    pub emissive_factor: Option<i64>,
    /// Texture object linked through the transparent-colour slot.
    pub transparent_texture_id: Option<i64>,
    /// Texture object linked through the diffuse-colour slot.
    pub diffuse_texture_id: Option<i64>,
}

impl MaterialData {
    /// Every present colour and factor is within the accepted range.
    pub open spec fn wf(self) -> bool {
        &&& match self.ambient_color {
            Option::Some(c) => c.wf(),
            Option::None => true,
        }
        &&& match self.diffuse_color {
            Option::Some(c) => c.wf(),
            Option::None => true,
        }
        &&& match self.emissive_color {
            Option::Some(c) => c.wf(),
            Option::None => true,
        }
        &&& match self.ambient_factor {
            Option::Some(f) => 0 <= f <= MAX_COLOR,
            Option::None => true,
        }
        &&& match self.diffuse_factor {
            Option::Some(f) => 0 <= f <= MAX_COLOR,
            Option::None => true,
        }
        &&& match self.emissive_factor {
            Option::Some(f) => 0 <= f <= MAX_COLOR,
            Option::None => true,
        }
    }
}

/// One texture object.
#[derive(Debug, Clone)]
pub struct TextureData {
    /// Document object id.
    pub id: i64,
    /// Name.
    pub name: Option<String>,
    /// Wrap mode property for the U axis; `None` when unreadable.
    pub wrap_mode_u: Option<RawWrapMode>,
    /// Wrap mode property for the V axis; `None` when unreadable.
    pub wrap_mode_v: Option<RawWrapMode>,
    /// Linked video-clip object, if any.
    pub video_clip_id: Option<i64>,
}

/// One video-clip object carrying image media.
#[derive(Debug, Clone)]
pub struct VideoClipData {
    /// Document object id.
    pub id: i64,
    /// Name.
    pub name: Option<String>,
    /// Relative filename as stored in the document, used only to sniff the
    /// image format from its extension.
    pub relative_filename: String,
    /// Embedded media bytes; `None` when the media is external.
    pub content: Option<Vec<u8>>,
}

/// One mesh-model object.
#[derive(Debug, Clone)]
pub struct ModelData {
    /// Document object id.
    pub id: i64,
    /// Name.
    pub name: Option<String>,
    /// Connected geometry object; `None` when the model has none.
    pub geometry_id: Option<i64>,
    /// Connected material objects, in slot order.
    pub material_ids: Vec<i64>,
}

/// True when no id occurs twice.
pub open spec fn distinct_ids(ids: Seq<i64>) -> bool {
    forall|i: int, j: int| 0 <= i < j < ids.len() ==> ids[i] != ids[j]
}

/// Decides [`distinct_ids`].
fn ids_distinct(ids: &Vec<i64>) -> (r: bool)
    ensures
        r == distinct_ids(ids@),
{
    let mut i: usize = 0;
    while i < ids.len()
        invariant
            i <= ids@.len(),
            forall|a: int, b: int| 0 <= a < b < ids@.len() && a < i ==> ids@[a] != ids@[b],
        decreases ids@.len() - i,
    {
        let mut j: usize = i + 1;
        while j < ids.len()
            invariant
                i < j <= ids@.len() || (i as int + 1 == j && j >= ids@.len()),
                i < ids@.len(),
                forall|b: int| i < b < j ==> ids@[i as int] != ids@[b],
            decreases ids@.len() - j,
        {
            if ids[i] == ids[j] {
                return false;
            }
            j = j + 1;
        }
        i = i + 1;
    }
    true
}

/// Decides [`GeometryData::wf`].
fn geometry_is_wf(g: &GeometryData) -> (r: bool)
    ensures
        r == g.wf(),
{
    if g.polygon_vertex_indices.len() > MAX_POLYGON_VERTICES {
        return false;
    }
    let mut i: usize = 0;
    while i < g.control_points.len()
        invariant
            i <= g.control_points@.len(),
            forall|j: int| 0 <= j < i ==> (#[trigger] g.control_points@[j]).wf(),
            g.polygon_vertex_indices@.len() <= MAX_POLYGON_VERTICES,
        decreases g.control_points@.len() - i,
    {
        let p = &g.control_points[i];
        if !(-MAX_COORD <= p.x && p.x <= MAX_COORD && -MAX_COORD <= p.y && p.y <= MAX_COORD
            && -MAX_COORD <= p.z && p.z <= MAX_COORD) {
            return false;
        }
        i = i + 1;
    }
    true
}

/// Decides whether one optional colour property is in range.
fn color_in_range(c: &Option<Rgb>) -> (r: bool)
    ensures
        r == match *c {
            Option::Some(v) => v.wf(),
            Option::None => true,
        },
{
    match c {
        Option::Some(v) => 0 <= v.r && v.r <= MAX_COLOR && 0 <= v.g && v.g <= MAX_COLOR && 0 <= v.b
            && v.b <= MAX_COLOR,
        Option::None => true,
    }
}

/// Decides whether one optional factor property is in range.
fn factor_in_range(f: &Option<i64>) -> (r: bool)
    ensures
        r == match *f {
            Option::Some(v) => 0 <= v <= MAX_COLOR,
            Option::None => true,
        },
{
    match f {
        Option::Some(v) => 0 <= *v && *v <= MAX_COLOR,
        Option::None => true,
    }
}

/// Decides [`MaterialData::wf`].
fn material_is_wf(m: &MaterialData) -> (r: bool)
    ensures
        r == m.wf(),
{
    color_in_range(&m.ambient_color) && color_in_range(&m.diffuse_color) && color_in_range(
        &m.emissive_color,
    ) && factor_in_range(&m.ambient_factor) && factor_in_range(&m.diffuse_factor)
        && factor_in_range(&m.emissive_factor)
}

/// The whole document: every object the loader may reach, in document order.
#[derive(Debug, Clone)]
pub struct Document {
    /// Mesh-model objects, in document iteration order.
    pub models: Vec<ModelData>,
    /// Mesh-geometry objects.
    pub geometries: Vec<GeometryData>,
    /// Material objects.
    pub materials: Vec<MaterialData>,
    /// Texture objects.
    pub textures: Vec<TextureData>,
    /// Video-clip objects.
    pub video_clips: Vec<VideoClipData>,
}

impl Document {
    /// The model ids, in order.
    pub open spec fn model_ids(self) -> Seq<i64> {
        self.models@.map_values(|m: ModelData| m.id)
    }

    /// The geometry ids, in order.
    pub open spec fn geometry_ids(self) -> Seq<i64> {
        self.geometries@.map_values(|g: GeometryData| g.id)
    }

    /// The material ids, in order.
    pub open spec fn material_ids(self) -> Seq<i64> {
        self.materials@.map_values(|m: MaterialData| m.id)
    }

    /// The texture ids, in order.
    pub open spec fn texture_ids(self) -> Seq<i64> {
        self.textures@.map_values(|t: TextureData| t.id)
    }

    /// The video-clip ids, in order.
    pub open spec fn video_clip_ids(self) -> Seq<i64> {
        self.video_clips@.map_values(|v: VideoClipData| v.id)
    }

    /// Object ids are unique within each collection, every object is well
    /// formed, and each collection is small enough to index with `u32`.
    pub open spec fn wf(self) -> bool {
        &&& distinct_ids(self.model_ids())
        &&& distinct_ids(self.geometry_ids())
        &&& distinct_ids(self.material_ids())
        &&& distinct_ids(self.texture_ids())
        &&& distinct_ids(self.video_clip_ids())
        &&& forall|i: int| 0 <= i < self.geometries@.len() ==> (#[trigger] self.geometries@[i]).wf()
        &&& forall|i: int| 0 <= i < self.materials@.len() ==> (#[trigger] self.materials@[i]).wf()
        &&& self.models@.len() < u32::MAX
        &&& self.geometries@.len() < u32::MAX
        &&& self.materials@.len() < u32::MAX
        &&& self.textures@.len() < u32::MAX
    }

    /// Decides [`Document::wf`], so that a caller can test a document of
    /// unknown provenance before loading it.
    pub fn is_wf(&self) -> (r: bool)
        ensures
            r == self.wf(),
    {
        let mut model_ids: Vec<i64> = Vec::new();
        let mut i: usize = 0;
        while i < self.models.len()
            invariant
                i <= self.models@.len(),
                model_ids@.len() == i,
                forall|j: int| 0 <= j < i ==> #[trigger] model_ids@[j] == self.models@[j].id,
            decreases self.models@.len() - i,
        {
            model_ids.push(self.models[i].id);
            i = i + 1;
        }
        proof {
            assert(model_ids@ =~= self.model_ids());
        }
        if !ids_distinct(&model_ids) {
            return false;
        }

        let mut geometry_ids: Vec<i64> = Vec::new();
        let mut i: usize = 0;
        while i < self.geometries.len()
            invariant
                i <= self.geometries@.len(),
                geometry_ids@.len() == i,
                forall|j: int| 0 <= j < i ==> #[trigger] geometry_ids@[j] == self.geometries@[j].id,
            decreases self.geometries@.len() - i,
        {
            geometry_ids.push(self.geometries[i].id);
            i = i + 1;
        }
        proof {
            assert(geometry_ids@ =~= self.geometry_ids());
        }
        if !ids_distinct(&geometry_ids) {
            return false;
        }

        let mut material_ids: Vec<i64> = Vec::new();
        let mut i: usize = 0;
        while i < self.materials.len()
            invariant
                i <= self.materials@.len(),
                material_ids@.len() == i,
                forall|j: int| 0 <= j < i ==> #[trigger] material_ids@[j] == self.materials@[j].id,
            decreases self.materials@.len() - i,
        {
            material_ids.push(self.materials[i].id);
            i = i + 1;
        }
        proof {
            assert(material_ids@ =~= self.material_ids());
        }
        if !ids_distinct(&material_ids) {
            return false;
        }

        let mut texture_ids: Vec<i64> = Vec::new();
        let mut i: usize = 0;
        while i < self.textures.len()
            invariant
                i <= self.textures@.len(),
                texture_ids@.len() == i,
                forall|j: int| 0 <= j < i ==> #[trigger] texture_ids@[j] == self.textures@[j].id,
            decreases self.textures@.len() - i,
        {
            texture_ids.push(self.textures[i].id);
            i = i + 1;
        }
        proof {
            assert(texture_ids@ =~= self.texture_ids());
        }
        if !ids_distinct(&texture_ids) {
            return false;
        }

        let mut video_clip_ids: Vec<i64> = Vec::new();
        let mut i: usize = 0;
        while i < self.video_clips.len()
            invariant
                i <= self.video_clips@.len(),
                video_clip_ids@.len() == i,
                forall|j: int|
                    0 <= j < i ==> #[trigger] video_clip_ids@[j] == self.video_clips@[j].id,
            decreases self.video_clips@.len() - i,
        {
            video_clip_ids.push(self.video_clips[i].id);
            i = i + 1;
        }
        proof {
            assert(video_clip_ids@ =~= self.video_clip_ids());
        }
        if !ids_distinct(&video_clip_ids) {
            return false;
        }

        let mut i: usize = 0;
        while i < self.geometries.len()
            invariant
                i <= self.geometries@.len(),
                forall|j: int| 0 <= j < i ==> (#[trigger] self.geometries@[j]).wf(),
            decreases self.geometries@.len() - i,
        {
            if !geometry_is_wf(&self.geometries[i]) {
                return false;
            }
            i = i + 1;
        }

        let mut i: usize = 0;
        while i < self.materials.len()
            invariant
                i <= self.materials@.len(),
                forall|j: int| 0 <= j < i ==> (#[trigger] self.materials@[j]).wf(),
            decreases self.materials@.len() - i,
        {
            if !material_is_wf(&self.materials[i]) {
                return false;
            }
            i = i + 1;
        }

        let limit = u32::MAX as usize;
        if self.models.len() >= limit || self.geometries.len() >= limit || self.materials.len()
            >= limit || self.textures.len() >= limit {
            return false;
        }
        true
    }

    /// Looks up a geometry object by id.
    pub fn find_geometry(&self, id: i64) -> (r: Option<&GeometryData>)
        ensures
            match r {
                Option::Some(g) => g.id == id && exists|i: int|
                    0 <= i < self.geometries@.len() && self.geometries@[i] == *g,
                Option::None => forall|i: int|
                    0 <= i < self.geometries@.len() ==> (#[trigger] self.geometries@[i]).id != id,
            },
    {
        let mut i: usize = 0;
        while i < self.geometries.len()
            invariant
                i <= self.geometries@.len(),
                forall|k: int| 0 <= k < i ==> (#[trigger] self.geometries@[k]).id != id,
            decreases self.geometries@.len() - i,
        {
            if self.geometries[i].id == id {
                return Option::Some(&self.geometries[i]);
            }
            i = i + 1;
        }
        Option::None
    }

    /// Looks up a material object by id.
    pub fn find_material(&self, id: i64) -> (r: Option<&MaterialData>)
        ensures
            match r {
                Option::Some(m) => m.id == id && exists|i: int|
                    0 <= i < self.materials@.len() && self.materials@[i] == *m,
                Option::None => forall|i: int|
                    0 <= i < self.materials@.len() ==> (#[trigger] self.materials@[i]).id != id,
            },
    {
        let mut i: usize = 0;
        while i < self.materials.len()
            invariant
                i <= self.materials@.len(),
                forall|k: int| 0 <= k < i ==> (#[trigger] self.materials@[k]).id != id,
            decreases self.materials@.len() - i,
        {
            if self.materials[i].id == id {
                return Option::Some(&self.materials[i]);
            }
            i = i + 1;
        }
        Option::None
    }

    /// Looks up a texture object by id.
    pub fn find_texture(&self, id: i64) -> (r: Option<&TextureData>)
        ensures
            match r {
                Option::Some(t) => t.id == id && exists|i: int|
                    0 <= i < self.textures@.len() && self.textures@[i] == *t,
                Option::None => forall|i: int|
                    0 <= i < self.textures@.len() ==> (#[trigger] self.textures@[i]).id != id,
            },
    {
        let mut i: usize = 0;
        while i < self.textures.len()
            invariant
                i <= self.textures@.len(),
                forall|k: int| 0 <= k < i ==> (#[trigger] self.textures@[k]).id != id,
            decreases self.textures@.len() - i,
        {
            if self.textures[i].id == id {
                return Option::Some(&self.textures[i]);
            }
            i = i + 1;
        }
        Option::None
    }

    /// Looks up a video-clip object by id.
    pub fn find_video_clip(&self, id: i64) -> (r: Option<&VideoClipData>)
        ensures
            match r {
                Option::Some(v) => v.id == id && exists|i: int|
                    0 <= i < self.video_clips@.len() && self.video_clips@[i] == *v,
                Option::None => forall|i: int|
                    0 <= i < self.video_clips@.len() ==> (#[trigger] self.video_clips@[i]).id
                        != id,
            },
    {
        let mut i: usize = 0;
        while i < self.video_clips.len()
            invariant
                i <= self.video_clips@.len(),
                forall|k: int| 0 <= k < i ==> (#[trigger] self.video_clips@[k]).id != id,
            decreases self.video_clips@.len() - i,
        {
            if self.video_clips[i].id == id {
                return Option::Some(&self.video_clips[i]);
            }
            i = i + 1;
        }
        Option::None
    }
}

} // verus!
