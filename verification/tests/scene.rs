//! End-to-end scene extraction from synthetic documents.

use fbx_viewer::data::MaterialIndex;
use fbx_viewer::data::ShadingData;
use fbx_viewer::data::WrapMode;
use fbx_viewer::error::Error;
use fbx_viewer::fbx::v7400::document::Document;
use fbx_viewer::fbx::v7400::document::GeometryData;
use fbx_viewer::fbx::v7400::document::LayerElementMaterial;
use fbx_viewer::fbx::v7400::document::LayerElementNormal;
use fbx_viewer::fbx::v7400::document::LayerElementUv;
use fbx_viewer::fbx::v7400::document::MappingMode;
use fbx_viewer::fbx::v7400::document::MaterialData;
use fbx_viewer::fbx::v7400::document::ModelData;
use fbx_viewer::fbx::v7400::document::RawWrapMode;
use fbx_viewer::fbx::v7400::document::ReferenceMode;
use fbx_viewer::fbx::v7400::document::TextureData;
use fbx_viewer::fbx::v7400::document::VideoClipData;
use fbx_viewer::fbx::v7400::from_doc;
use fbx_viewer::math::Point2;
use fbx_viewer::math::Point3;
use fbx_viewer::math::Rgb;
use fbx_viewer::math::Vector3;
use fbx_viewer::math::FP_ONE;

/// A 1x1 red RGBA PNG.
const RED_PNG: [u8; 70] = [
    137, 80, 78, 71, 13, 10, 26, 10, 0, 0, 0, 13, 73, 72, 68, 82, 0, 0, 0, 1, 0, 0, 0, 1, 8, 6, 0,
    0, 0, 31, 21, 196, 137, 0, 0, 0, 13, 73, 68, 65, 84, 120, 156, 99, 248, 207, 192, 240, 31, 0,
    5, 0, 1, 255, 137, 153, 61, 29, 0, 0, 0, 0, 73, 69, 78, 68, 174, 66, 96, 130,
];

/// A 1x1 red 32-bit uncompressed TGA.
const RED_TGA: [u8; 22] = [
    0, 0, 2, 0, 0, 0, 0, 0, 0, 0, 0, 0, 1, 0, 1, 0, 32, 40, 0, 0, 255, 255,
];

/// One quad-faced geometry: 4 control points, 1 quad polygon, layers by
/// control point, one material slot used for everything.
fn quad_geometry(id: i64) -> GeometryData {
    GeometryData {
        id,
        name: Some("quad".to_string()),
        control_points: vec![
            Point3::new(0, 0, 0),
            Point3::new(1000, 0, 0),
            Point3::new(1000, 1000, 0),
            Point3::new(0, 1000, 0),
        ],
        polygon_vertex_indices: vec![0, 1, 2, -4],
        normals: Some(LayerElementNormal {
            mapping: MappingMode::ByControlPoint,
            normals: vec![
                Vector3::new(0, 0, 100),
                Vector3::new(0, 0, 100),
                Vector3::new(0, 0, 100),
                Vector3::new(0, 0, 100),
            ],
        }),
        uv: Some(LayerElementUv {
            mapping: MappingMode::ByControlPoint,
            reference: ReferenceMode::Direct,
            uv: vec![
                Point2::new(0, 0),
                Point2::new(10, 0),
                Point2::new(10, 10),
                Point2::new(0, 10),
            ],
            uv_index: vec![],
        }),
        materials: Some(LayerElementMaterial {
            mapping: MappingMode::AllSame,
            indices: vec![0],
        }),
    }
}

fn lambert_material(id: i64) -> MaterialData {
    MaterialData {
        id,
        name: Some("mat".to_string()),
        shading_model: Some("Lambert".to_string()),
        ambient_color: Some(Rgb::new(FP_ONE, FP_ONE, FP_ONE)),
        ambient_factor: Some(FP_ONE),
        diffuse_color: Some(Rgb::new(FP_ONE, 0, 0)),
        diffuse_factor: Some(FP_ONE),
        emissive_color: Some(Rgb::new(0, 0, 0)),
        emissive_factor: Some(0),
        transparent_texture_id: None,
        diffuse_texture_id: None,
    }
}

fn quad_model(id: i64, geometry_id: i64, material_ids: Vec<i64>) -> ModelData {
    ModelData {
        id,
        name: Some("model".to_string()),
        geometry_id: Some(geometry_id),
        material_ids,
    }
}

fn quad_doc() -> Document {
    Document {
        models: vec![quad_model(1, 10, vec![20])],
        geometries: vec![quad_geometry(10)],
        materials: vec![lambert_material(20)],
        textures: vec![],
        video_clips: vec![],
    }
}

#[test]
fn quad_document_loads_end_to_end() {
    let doc = quad_doc();
    assert!(doc.is_wf());
    let scene = from_doc(&doc).unwrap();

    assert_eq!(scene.geometry_meshes.len(), 1);
    let g = &scene.geometry_meshes[0];
    assert_eq!(g.positions.len(), 6);
    assert_eq!(g.normals.len(), 6);
    assert_eq!(g.uv.len(), 6);
    // The square is convex: the cut runs 0-2, so corners run 0,1,2,2,3,0.
    let expect: Vec<Point3> = vec![
        Point3::new(0, 0, 0),
        Point3::new(1000, 0, 0),
        Point3::new(1000, 1000, 0),
        Point3::new(1000, 1000, 0),
        Point3::new(0, 1000, 0),
        Point3::new(0, 0, 0),
    ];
    assert_eq!(g.positions, expect);
    assert_eq!(g.indices_per_material.len(), 1);
    assert_eq!(g.indices_per_material[0], vec![0, 1, 2, 3, 4, 5]);

    assert_eq!(scene.materials.len(), 1);
    let m = &scene.materials[0];
    assert!(m.diffuse_texture.is_none());
    let ShadingData::Lambert(lam) = m.data;
    assert_eq!(lam.ambient, Rgb::new(FP_ONE, FP_ONE, FP_ONE));
    assert_eq!(lam.diffuse, Rgb::new(FP_ONE, 0, 0));
    assert_eq!(lam.emissive, Rgb::new(0, 0, 0));

    assert_eq!(scene.meshes.len(), 1);
    let mesh = &scene.meshes[0];
    assert_eq!(mesh.materials, vec![MaterialIndex(0)]);
    assert_eq!(mesh.geometry_mesh_index.to_usize(), 0);
    assert_eq!(scene.textures.len(), 0);
}

#[test]
fn scene_bbox_spans_all_geometry() {
    let doc = quad_doc();
    let scene = from_doc(&doc).unwrap();
    let b = scene.bbox().bounding_box().unwrap();
    assert_eq!(b.min(), Point3::new(0, 0, 0));
    assert_eq!(b.max(), Point3::new(1000, 1000, 0));
}

#[test]
fn scene_name_can_be_set() {
    let doc = quad_doc();
    let mut scene = from_doc(&doc).unwrap();
    assert!(scene.name.is_none());
    scene.set_name(Some("lobby".to_string()));
    assert_eq!(scene.name.as_deref(), Some("lobby"));
}

#[test]
fn shared_objects_load_once() {
    // Two meshes share one geometry and one material object: each maps to
    // the same scene index both times.
    let doc = Document {
        models: vec![quad_model(1, 10, vec![20]), quad_model(2, 10, vec![20])],
        geometries: vec![quad_geometry(10)],
        materials: vec![lambert_material(20)],
        textures: vec![],
        video_clips: vec![],
    };
    assert!(doc.is_wf());
    let scene = from_doc(&doc).unwrap();
    assert_eq!(scene.meshes.len(), 2);
    assert_eq!(scene.geometry_meshes.len(), 1);
    assert_eq!(scene.materials.len(), 1);
    assert_eq!(
        scene.meshes[0].geometry_mesh_index,
        scene.meshes[1].geometry_mesh_index
    );
    assert_eq!(scene.meshes[0].materials, scene.meshes[1].materials);
}

#[test]
fn unrecognized_shading_model_fails_whole_load() {
    let mut doc = quad_doc();
    doc.materials[0].shading_model = Some("Hologram".to_string());
    assert!(doc.is_wf());
    let r = from_doc(&doc);
    assert_eq!(r.unwrap_err(), Error::UnsupportedShadingModel);
}

#[test]
fn unknown_shading_model_fails_whole_load() {
    let mut doc = quad_doc();
    doc.materials[0].shading_model = Some("Unknown".to_string());
    let r = from_doc(&doc);
    assert_eq!(r.unwrap_err(), Error::UnsupportedShadingModel);
}

#[test]
fn unreadable_shading_model_is_a_document_error() {
    let mut doc = quad_doc();
    doc.materials[0].shading_model = None;
    let r = from_doc(&doc);
    assert_eq!(r.unwrap_err(), Error::DocumentAccessError);
}

#[test]
fn missing_color_property_is_a_document_error() {
    let mut doc = quad_doc();
    doc.materials[0].diffuse_color = None;
    let r = from_doc(&doc);
    assert_eq!(r.unwrap_err(), Error::DocumentAccessError);
}

#[test]
fn degenerate_polygon_fails_with_invalid_polygon() {
    let mut doc = quad_doc();
    doc.geometries[0].polygon_vertex_indices = vec![0, -2];
    let r = from_doc(&doc);
    assert_eq!(r.unwrap_err(), Error::InvalidPolygon);
}

#[test]
fn unterminated_polygon_is_a_document_error() {
    let mut doc = quad_doc();
    doc.geometries[0].polygon_vertex_indices = vec![0, 1, 2];
    let r = from_doc(&doc);
    assert_eq!(r.unwrap_err(), Error::DocumentAccessError);
}

#[test]
fn missing_normal_layer_fails() {
    let mut doc = quad_doc();
    doc.geometries[0].normals = None;
    let r = from_doc(&doc);
    assert_eq!(r.unwrap_err(), Error::MissingLayer);
}

#[test]
fn missing_uv_layer_fails() {
    let mut doc = quad_doc();
    doc.geometries[0].uv = None;
    let r = from_doc(&doc);
    assert_eq!(r.unwrap_err(), Error::MissingLayer);
}

#[test]
fn missing_material_layer_fails() {
    let mut doc = quad_doc();
    doc.geometries[0].materials = None;
    let r = from_doc(&doc);
    assert_eq!(r.unwrap_err(), Error::MissingLayer);
}

#[test]
fn out_of_range_material_slot_fails() {
    // The layer assigns slot 3 but the mesh has a single material.
    let mut doc = quad_doc();
    doc.geometries[0].materials = Some(LayerElementMaterial {
        mapping: MappingMode::AllSame,
        indices: vec![3],
    });
    let r = from_doc(&doc);
    assert_eq!(r.unwrap_err(), Error::IndexOutOfRange);
}

#[test]
fn model_without_geometry_is_a_document_error() {
    let mut doc = quad_doc();
    doc.models[0].geometry_id = None;
    let r = from_doc(&doc);
    assert_eq!(r.unwrap_err(), Error::DocumentAccessError);
}

#[test]
fn dangling_geometry_reference_is_a_document_error() {
    let mut doc = quad_doc();
    doc.models[0].geometry_id = Some(999);
    let r = from_doc(&doc);
    assert_eq!(r.unwrap_err(), Error::DocumentAccessError);
}

fn textured_doc(clip: VideoClipData) -> Document {
    let mut doc = quad_doc();
    doc.materials[0].diffuse_texture_id = Some(30);
    doc.textures = vec![TextureData {
        id: 30,
        name: Some("tex".to_string()),
        wrap_mode_u: Some(RawWrapMode::Repeat),
        wrap_mode_v: Some(RawWrapMode::Clamp),
        video_clip_id: Some(40),
    }];
    doc.video_clips = vec![clip];
    doc
}

#[test]
fn embedded_png_texture_decodes() {
    let doc = textured_doc(VideoClipData {
        id: 40,
        name: Some("clip".to_string()),
        relative_filename: "textures/red.png".to_string(),
        content: Some(RED_PNG.to_vec()),
    });
    assert!(doc.is_wf());
    let scene = from_doc(&doc).unwrap();
    assert_eq!(scene.textures.len(), 1);
    let t = &scene.textures[0];
    assert_eq!(t.image.width, 1);
    assert_eq!(t.image.height, 1);
    assert_eq!(t.image.rgba, vec![255, 0, 0, 255]);
    assert_eq!(t.wrap_mode_u, WrapMode::Repeat);
    assert_eq!(t.wrap_mode_v, WrapMode::ClampToEdge);
    assert!(!t.transparent);
    assert_eq!(scene.materials[0].diffuse_texture.unwrap().to_usize(), 0);
}

#[test]
fn embedded_tga_texture_decodes_by_extension() {
    let doc = textured_doc(VideoClipData {
        id: 40,
        name: Some("clip".to_string()),
        relative_filename: "textures/red.TGA".to_string(),
        content: Some(RED_TGA.to_vec()),
    });
    let scene = from_doc(&doc).unwrap();
    let t = &scene.textures[0];
    assert_eq!(t.image.width, 1);
    assert_eq!(t.image.height, 1);
    assert_eq!(t.image.rgba, vec![255, 0, 0, 255]);
}

#[test]
fn transparent_slot_wins_and_marks_texture() {
    let mut doc = textured_doc(VideoClipData {
        id: 40,
        name: None,
        relative_filename: "red.png".to_string(),
        content: Some(RED_PNG.to_vec()),
    });
    doc.materials[0].transparent_texture_id = Some(30);
    doc.materials[0].diffuse_texture_id = None;
    let scene = from_doc(&doc).unwrap();
    assert!(scene.textures[0].transparent);
}

#[test]
fn shared_texture_loads_once() {
    // Two materials referencing the same texture object yield one texture.
    let mut doc = textured_doc(VideoClipData {
        id: 40,
        name: None,
        relative_filename: "red.png".to_string(),
        content: Some(RED_PNG.to_vec()),
    });
    let mut second = lambert_material(21);
    second.diffuse_texture_id = Some(30);
    doc.materials.push(second);
    doc.models[0].material_ids = vec![20, 21];
    doc.geometries[0].materials = Some(LayerElementMaterial {
        mapping: MappingMode::AllSame,
        indices: vec![0],
    });
    let scene = from_doc(&doc).unwrap();
    assert_eq!(scene.textures.len(), 1);
    assert_eq!(
        scene.materials[0].diffuse_texture,
        scene.materials[1].diffuse_texture
    );
}

#[test]
fn external_media_is_refused() {
    let doc = textured_doc(VideoClipData {
        id: 40,
        name: None,
        relative_filename: "red.png".to_string(),
        content: None,
    });
    let r = from_doc(&doc);
    assert_eq!(r.unwrap_err(), Error::NoEmbeddedImage);
}

#[test]
fn undecodable_media_is_refused() {
    let doc = textured_doc(VideoClipData {
        id: 40,
        name: None,
        relative_filename: "red.png".to_string(),
        content: Some(vec![1, 2, 3, 4]),
    });
    let r = from_doc(&doc);
    assert_eq!(r.unwrap_err(), Error::ImageDecode);
}

#[test]
fn unreadable_wrap_mode_is_a_document_error() {
    let mut doc = textured_doc(VideoClipData {
        id: 40,
        name: None,
        relative_filename: "red.png".to_string(),
        content: Some(RED_PNG.to_vec()),
    });
    doc.textures[0].wrap_mode_u = None;
    let r = from_doc(&doc);
    assert_eq!(r.unwrap_err(), Error::DocumentAccessError);
}

#[test]
fn unsupported_ngon_fails_whole_load() {
    // A hexagon with two reflex corners cannot be fan-triangulated.
    let mut doc = quad_doc();
    doc.geometries[0] = GeometryData {
        id: 10,
        name: None,
        control_points: vec![
            Point3::new(0, 0, 0),
            Point3::new(2000, 1000, 0),
            Point3::new(4000, 0, 0),
            Point3::new(4000, 4000, 0),
            Point3::new(2000, 3000, 0),
            Point3::new(0, 4000, 0),
        ],
        polygon_vertex_indices: vec![0, 1, 2, 3, 4, -6],
        normals: Some(LayerElementNormal {
            mapping: MappingMode::ByControlPoint,
            normals: vec![Vector3::new(0, 0, 100); 6],
        }),
        uv: Some(LayerElementUv {
            mapping: MappingMode::ByControlPoint,
            reference: ReferenceMode::Direct,
            uv: vec![Point2::new(0, 0); 6],
            uv_index: vec![],
        }),
        materials: Some(LayerElementMaterial {
            mapping: MappingMode::AllSame,
            indices: vec![0],
        }),
    };
    let r = from_doc(&doc);
    assert_eq!(r.unwrap_err(), Error::UnsupportedPolygon);
}

#[test]
fn duplicate_ids_are_rejected_by_the_wellformedness_check() {
    let mut doc = quad_doc();
    doc.materials.push(lambert_material(20));
    assert!(!doc.is_wf());
}

#[test]
fn per_polygon_vertex_layers_resolve() {
    // UV addressed per polygon vertex through an index array.
    let mut doc = quad_doc();
    doc.geometries[0].uv = Some(LayerElementUv {
        mapping: MappingMode::ByPolygonVertex,
        reference: ReferenceMode::IndexToDirect,
        uv: vec![Point2::new(7, 7), Point2::new(9, 9)],
        uv_index: vec![0, 1, 0, 1],
    });
    let scene = from_doc(&doc).unwrap();
    let g = &scene.geometry_meshes[0];
    // Corners 0,1,2,2,3,0 pick uv_index entries 0,1,0,0,1,0.
    let expect = vec![
        Point2::new(7, 7),
        Point2::new(9, 9),
        Point2::new(7, 7),
        Point2::new(7, 7),
        Point2::new(9, 9),
        Point2::new(7, 7),
    ];
    assert_eq!(g.uv, expect);
}

#[test]
fn by_polygon_material_layer_buckets_per_polygon() {
    // Two polygons — a quad and a triangle — assigned to two material slots
    // through a per-polygon layer.
    let mut doc = quad_doc();
    doc.geometries[0] = GeometryData {
        id: 10,
        name: None,
        control_points: vec![
            Point3::new(0, 0, 0),
            Point3::new(1000, 0, 0),
            Point3::new(1000, 1000, 0),
            Point3::new(0, 1000, 0),
            Point3::new(2000, 500, 0),
        ],
        polygon_vertex_indices: vec![0, 1, 2, -4, 2, 1, -5],
        normals: Some(LayerElementNormal {
            mapping: MappingMode::ByControlPoint,
            normals: vec![Vector3::new(0, 0, 100); 5],
        }),
        uv: Some(LayerElementUv {
            mapping: MappingMode::ByControlPoint,
            reference: ReferenceMode::Direct,
            uv: vec![Point2::new(0, 0); 5],
            uv_index: vec![],
        }),
        materials: Some(LayerElementMaterial {
            mapping: MappingMode::ByPolygon,
            indices: vec![0, 1],
        }),
    };
    doc.materials.push(lambert_material(21));
    doc.models[0].material_ids = vec![20, 21];
    assert!(doc.is_wf());
    let scene = from_doc(&doc).unwrap();
    let g = &scene.geometry_meshes[0];
    // The quad cuts into two triangles (six corners), the triangle passes
    // through (three corners).
    assert_eq!(g.positions.len(), 9);
    assert_eq!(g.indices_per_material.len(), 2);
    assert_eq!(g.indices_per_material[0], vec![0, 1, 2, 3, 4, 5]);
    assert_eq!(g.indices_per_material[1], vec![6, 7, 8]);
    assert_eq!(
        scene.meshes[0].materials,
        vec![MaterialIndex(0), MaterialIndex(1)]
    );
}

#[test]
fn by_edge_layer_is_a_document_error() {
    let mut doc = quad_doc();
    if let Some(normals) = &mut doc.geometries[0].normals {
        normals.mapping = MappingMode::ByEdge;
    }
    let r = from_doc(&doc);
    assert_eq!(r.unwrap_err(), Error::DocumentAccessError);
}
