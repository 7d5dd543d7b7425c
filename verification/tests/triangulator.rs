//! Triangulator behaviour on concrete polygons.

use fbx_viewer::error::Error;
use fbx_viewer::fbx::v7400::triangulator::triangulator;
use fbx_viewer::fbx::v7400::triangulator::Triangle;
use fbx_viewer::math::Point3;

fn pt(x: i64, y: i64, z: i64) -> Point3 {
    Point3::new(x, y, z)
}

/// Runs the triangulator over one polygon covering all of `cps`, the last
/// raw entry closing the polygon.
fn run(cps: &[Point3]) -> Result<Vec<Triangle>, Error> {
    let n = cps.len();
    let cps: Vec<Point3> = cps.to_vec();
    let mut raw: Vec<i32> = Vec::new();
    for i in 0..n {
        if i + 1 == n {
            raw.push(-(i as i32) - 1);
        } else {
            raw.push(i as i32);
        }
    }
    let poly: Vec<usize> = (0..n).collect();
    let mut out: Vec<Triangle> = Vec::new();
    triangulator(&cps, &raw, &poly, &mut out).map(|_| out)
}

/// Counts how often the undirected edge {u, v} occurs over all triangles.
fn edge_count(tris: &[Triangle], u: usize, v: usize) -> usize {
    let mut count = 0;
    for t in tris {
        for (a, b) in [(t.a, t.b), (t.b, t.c), (t.c, t.a)] {
            if (a, b) == (u, v) || (b, a) == (u, v) {
                count += 1;
            }
        }
    }
    count
}

#[test]
fn zero_vertex_polygon_is_invalid() {
    let r = run(&[]);
    assert_eq!(r.unwrap_err(), Error::InvalidPolygon);
}

#[test]
fn two_vertex_polygon_is_invalid() {
    let r = run(&[pt(0, 0, 0), pt(1000, 0, 0)]);
    assert_eq!(r.unwrap_err(), Error::InvalidPolygon);
}

#[test]
fn triangle_passes_through() {
    let tris = run(&[pt(0, 0, 0), pt(1000, 0, 0), pt(0, 1000, 0)]).unwrap();
    assert_eq!(tris, vec![Triangle { a: 0, b: 1, c: 2 }]);
}

#[test]
fn convex_quad_cuts_along_0_2() {
    // Unit square: both corner normals agree, so the rule cuts 0-2.
    let tris = run(&[pt(0, 0, 0), pt(1000, 0, 0), pt(1000, 1000, 0), pt(0, 1000, 0)]).unwrap();
    assert_eq!(
        tris,
        vec![Triangle { a: 0, b: 1, c: 2 }, Triangle { a: 2, b: 3, c: 0 }]
    );
    // Watertight: each boundary edge once, the chosen diagonal twice, the
    // other diagonal never.
    for (u, v) in [(0, 1), (1, 2), (2, 3), (3, 0)] {
        assert_eq!(edge_count(&tris, u, v), 1);
    }
    assert_eq!(edge_count(&tris, 0, 2), 2);
    assert_eq!(edge_count(&tris, 1, 3), 0);
}

#[test]
fn concave_quad_cuts_along_1_3() {
    // Corner 1 is reflex, so the corner normals disagree and the cut must
    // run 1-3 to avoid an inverted triangle.
    let tris = run(&[pt(0, 0, 0), pt(2000, 2000, 0), pt(4000, 0, 0), pt(2000, 4000, 0)]).unwrap();
    assert_eq!(
        tris,
        vec![Triangle { a: 0, b: 1, c: 3 }, Triangle { a: 3, b: 1, c: 2 }]
    );
    for (u, v) in [(0, 1), (1, 2), (2, 3), (3, 0)] {
        assert_eq!(edge_count(&tris, u, v), 1);
    }
    assert_eq!(edge_count(&tris, 1, 3), 2);
    assert_eq!(edge_count(&tris, 0, 2), 0);
}

fn regular_ngon(coords: &[(i64, i64)]) -> Vec<Point3> {
    coords.iter().map(|&(x, y)| pt(x, y, 0)).collect()
}

fn assert_fan(tris: &[Triangle], n: usize) {
    assert_eq!(tris.len(), n - 2);
    let anchor = tris[0].a;
    for t in tris {
        assert_eq!(t.a, anchor);
    }
}

#[test]
fn regular_pentagon_fans() {
    let cps = regular_ngon(&[(1000, 0), (309, 951), (-809, 588), (-809, -588), (309, -951)]);
    let tris = run(&cps).unwrap();
    assert_fan(&tris, 5);
}

#[test]
fn regular_hexagon_fans() {
    let cps = regular_ngon(&[
        (1000, 0),
        (500, 866),
        (-500, 866),
        (-1000, 0),
        (-500, -866),
        (500, -866),
    ]);
    let tris = run(&cps).unwrap();
    assert_fan(&tris, 6);
}

#[test]
fn regular_octagon_fans() {
    let cps = regular_ngon(&[
        (1000, 0),
        (707, 707),
        (0, 1000),
        (-707, 707),
        (-1000, 0),
        (-707, -707),
        (0, -1000),
        (707, -707),
    ]);
    let tris = run(&cps).unwrap();
    assert_fan(&tris, 8);
}

#[test]
fn pentagon_edges_are_watertight() {
    let cps = regular_ngon(&[(1000, 0), (309, 951), (-809, 588), (-809, -588), (309, -951)]);
    let tris = run(&cps).unwrap();
    // Fully convex, so the fan anchors at corner 0.
    for (u, v) in [(0, 1), (1, 2), (2, 3), (3, 4), (4, 0)] {
        assert_eq!(edge_count(&tris, u, v), 1);
    }
    for (u, v) in [(0, 2), (0, 3)] {
        assert_eq!(edge_count(&tris, u, v), 2);
    }
}

#[test]
fn one_reflex_vertex_among_five_succeeds() {
    // Corner 3 points inward; the fan anchors there.
    let cps = regular_ngon(&[(0, 0), (4000, 0), (4000, 4000), (2000, 2000), (0, 4000)]);
    let tris = run(&cps).unwrap();
    assert_fan(&tris, 5);
    assert_eq!(tris[0].a, 3);
}

#[test]
fn two_reflex_vertices_are_unsupported() {
    // Corners 1 and 4 point inward: two reflex vertices on both turn
    // classes, which the fan strategy declines.
    let cps = regular_ngon(&[
        (0, 0),
        (2000, 1000),
        (4000, 0),
        (4000, 4000),
        (2000, 3000),
        (0, 4000),
    ]);
    let r = run(&cps);
    assert_eq!(r.unwrap_err(), Error::UnsupportedPolygon);
}

#[test]
fn out_of_range_control_point_is_rejected() {
    // A quad whose last corner names a control point that does not exist.
    let cps: Vec<Point3> = vec![pt(0, 0, 0), pt(1000, 0, 0), pt(1000, 1000, 0)];
    let raw: Vec<i32> = vec![0, 1, 2, -10];
    let poly: Vec<usize> = vec![0, 1, 2, 3];
    let mut out: Vec<Triangle> = Vec::new();
    let r = triangulator(&cps, &raw, &poly, &mut out);
    assert_eq!(r.unwrap_err(), Error::IndexOutOfRange);
    assert!(out.is_empty());
}

#[test]
fn tied_extents_prefer_dropping_x() {
    // The X and Y extents tie as smallest (1809 each; Z spans 1902), so the
    // X axis is dropped and the polygon is classified in the (y, z) plane,
    // where it is a convex pentagon. Classified in (x, z) instead it would
    // be a zigzag with reflex corners on both sides.
    let cps = vec![
        pt(0, 1000, 0),
        pt(1809, 309, 951),
        pt(0, -809, 588),
        pt(1809, -809, -588),
        pt(0, 309, -951),
    ];
    let tris = run(&cps).unwrap();
    assert_fan(&tris, 5);
}
