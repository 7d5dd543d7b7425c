//! Utility types: bounding boxes, fixed-point colours, steppers, options.

use fbx_viewer::fbx::v7400::decode::filename_is_tga;
use fbx_viewer::fbx::v7400::document::Document;
use fbx_viewer::fbx::v7400::from_doc;
use fbx_viewer::math::Point3;
use fbx_viewer::math::Rgb;
use fbx_viewer::math::FP_ONE;
use fbx_viewer::util::bbox::BoundingBox3d;
use fbx_viewer::util::bbox::OptionalBoundingBox3d;
use fbx_viewer::util::iter::option::OkOr;
use fbx_viewer::util::iter::option::OptionIteratorExt;
use fbx_viewer::util::iter::result::ResultIteratorExt;
use fbx_viewer::CliOpt;

#[test]
fn empty_bounding_box_is_none() {
    let b = OptionalBoundingBox3d::new();
    assert!(b.bounding_box().is_none());
}

#[test]
fn bounding_box_folds_min_and_max() {
    let b = BoundingBox3d::from_point(Point3::new(10, -5, 3));
    let b = b.insert(Point3::new(-2, 7, 3));
    let b = b.insert(Point3::new(4, 4, -9));
    assert_eq!(b.min(), Point3::new(-2, -5, -9));
    assert_eq!(b.max(), Point3::new(10, 7, 3));
}

#[test]
fn bounding_box_union_covers_both() {
    let a = BoundingBox3d::from_point(Point3::new(0, 0, 0));
    let b = BoundingBox3d::from_point(Point3::new(5, -5, 2));
    let u = a.union(&b);
    assert_eq!(u.min(), Point3::new(0, -5, 0));
    assert_eq!(u.max(), Point3::new(5, 0, 2));
}

#[test]
fn optional_bounding_box_collects_points() {
    let pts = vec![Point3::new(1, 2, 3), Point3::new(-1, 8, 0), Point3::new(4, 2, 2)];
    let b = OptionalBoundingBox3d::from_points(&pts).bounding_box().unwrap();
    assert_eq!(b.min(), Point3::new(-1, 2, 0));
    assert_eq!(b.max(), Point3::new(4, 8, 3));
}

#[test]
fn empty_document_loads_to_empty_scene() {
    let doc = Document {
        models: vec![],
        geometries: vec![],
        materials: vec![],
        textures: vec![],
        video_clips: vec![],
    };
    assert!(doc.is_wf());
    let scene = from_doc(&doc).unwrap();
    assert_eq!(scene.meshes.len(), 0);
    assert_eq!(scene.geometry_meshes.len(), 0);
}

#[test]
fn scaled_colour_is_exact_fixed_point() {
    let c = Rgb::new(1000, 2000, 3000);
    let half = FP_ONE / 2;
    assert_eq!(c.scaled(half), Rgb::new(500, 1000, 1500));
    let c2 = Rgb::new(FP_ONE, FP_ONE, FP_ONE);
    assert_eq!(c2.scaled(FP_ONE), Rgb::new(FP_ONE, FP_ONE, FP_ONE));
    assert_eq!(c2.scaled(0), Rgb::new(0, 0, 0));
}

#[test]
fn tga_filenames_are_sniffed_case_insensitively() {
    assert!(filename_is_tga("red.tga"));
    assert!(filename_is_tga("textures/red.TGA"));
    assert!(filename_is_tga("a/b/c.TgA"));
    assert!(!filename_is_tga("red.png"));
    assert!(!filename_is_tga(".tga"));
    assert!(!filename_is_tga("dir.tga/file"));
    assert!(!filename_is_tga("red.tgz"));
    assert!(!filename_is_tga("red"));
}

#[test]
fn ok_or_resolves_present_and_absent_entries() {
    let items: Vec<Option<u32>> = vec![Some(7), None, Some(9)];
    let mut s: OkOr<u32, i8> = OkOr::new(items, -1);
    assert_eq!(s.next(), Some(Ok(7)));
    assert_eq!(s.next(), Some(Err(-1)));
    assert_eq!(s.next(), Some(Ok(9)));
    assert_eq!(s.next(), None);
    assert_eq!(s.next(), None);
}

#[test]
fn ok_or_steps_options_through_the_trait() {
    let items: Vec<Option<u32>> = vec![Some(3), None];
    let mut s: OkOr<u32, i8> = OkOr::new(items, -1);
    assert_eq!(s.next_option(), Some(Some(3)));
    assert_eq!(s.next_option(), Some(None));
    assert_eq!(s.next_option(), None);
}

#[test]
fn ok_or_steps_results_through_the_trait() {
    let items: Vec<Option<u32>> = vec![None, Some(5)];
    let mut s: OkOr<u32, i8> = OkOr::new(items, -3);
    assert_eq!(s.next_result(), Some(Err(-3)));
    assert_eq!(s.next_result(), Some(Ok(5)));
    assert_eq!(s.next_result(), None);
}

#[test]
fn cli_opt_keeps_the_path() {
    let opt = CliOpt::new("scene.fbx".to_string());
    assert_eq!(opt.fbx_path, "scene.fbx");
}

#[test]
fn union_extend_covers_every_box() {
    let base = BoundingBox3d::from_point(Point3::new(0, 0, 0));
    let others = vec![
        BoundingBox3d::from_point(Point3::new(9, 1, 1)),
        BoundingBox3d::from_point(Point3::new(-3, 2, 5)),
    ];
    let u = base.union_extend(&others);
    assert_eq!(u.min(), Point3::new(-3, 0, 0));
    assert_eq!(u.max(), Point3::new(9, 2, 5));

    let opt = OptionalBoundingBox3d::new();
    let parts = vec![
        OptionalBoundingBox3d::new(),
        OptionalBoundingBox3d::new().insert(Point3::new(2, 2, 2)),
    ];
    let b = opt.union_extend(&parts).bounding_box().unwrap();
    assert_eq!(b.min(), Point3::new(2, 2, 2));
    assert_eq!(b.max(), Point3::new(2, 2, 2));
}
