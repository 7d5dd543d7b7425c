//! Triangulator.
//!
//! Splits each polygon of a geometry into triangles of polygon-vertex-index
//! triples: a triangle is passed through, a quadrangle is cut along the
//! diagonal chosen by a concavity test, and a larger n-gon with at most one
//! reflex vertex is fan-triangulated around a well-chosen anchor. An n-gon
//! with two or more reflex vertices is rejected rather than guessed at.
//!
//! Every geometric decision is mirrored by a spec function, so the exec code
//! is proved to return exactly the triangulation that
//! [`spec_triangulate_polygon`] describes.

use vstd::prelude::*;
use vstd::multiset::Multiset;

use crate::error::Error;
use crate::math::Point3;
use crate::math::MAX_COORD;
use crate::util::bbox::spec_bbox_of;
use crate::util::bbox::spec_from_point;
use crate::util::bbox::spec_insert;
use crate::util::bbox::spec_insert_all;
use crate::util::bbox::BoundingBox3d;
use crate::util::bbox::OptionalBoundingBox3d;

verus! {

/// One triangle, as three polygon-vertex indices.
#[derive(Debug, Clone, Copy, PartialEq, Eq, Structural)]
pub struct Triangle {
    /// First corner.
    pub a: usize,
    /// Second corner.
    pub b: usize,
    /// Third corner.
    pub c: usize,
}

/// The control-point index encoded in one raw polygon-vertex entry: a negative
/// entry `r` encodes `!r` and closes its polygon.
pub open spec fn spec_cpi(raw: i32) -> int {
    if raw < 0 {
        -(raw as int) - 1
    } else {
        raw as int
    }
}

/// The polygon-vertex index resolves to a control point.
pub open spec fn pvi_ok(cps: Seq<Point3>, raw: Seq<i32>, pvi: int) -> bool {
    &&& 0 <= pvi < raw.len()
    &&& spec_cpi(raw[pvi]) < cps.len()
}

/// The control point reached through one polygon-vertex index.
pub open spec fn point_at(cps: Seq<Point3>, raw: Seq<i32>, pvi: int) -> Point3 {
    cps[spec_cpi(raw[pvi])]
}

/// Every corner of the polygon resolves to a control point.
pub open spec fn polygon_points_ok(cps: Seq<Point3>, raw: Seq<i32>, poly: Seq<usize>) -> bool {
    forall|i: int| 0 <= i < poly.len() ==> pvi_ok(cps, raw, #[trigger] poly[i] as int)
}

/// The control points of the polygon's corners, in order.
pub open spec fn polygon_points(cps: Seq<Point3>, raw: Seq<i32>, poly: Seq<usize>) -> Seq<Point3> {
    poly.map_values(|pvi: usize| point_at(cps, raw, pvi as int))
}

/// Component-wise difference of two points.
pub open spec fn sub3(a: Point3, b: Point3) -> (int, int, int) {
    (a.x - b.x, a.y - b.y, a.z - b.z)
}

/// Cross product.
pub open spec fn cross3(a: (int, int, int), b: (int, int, int)) -> (int, int, int) {
    (a.1 * b.2 - a.2 * b.1, a.2 * b.0 - a.0 * b.2, a.0 * b.1 - a.1 * b.0)
}

/// Dot product.
pub open spec fn dot3(a: (int, int, int), b: (int, int, int)) -> int {
    a.0 * b.0 + a.1 * b.1 + a.2 * b.2
}

/// The quadrangle concavity test: the dot product of the corner-normal
/// estimates at corners 1 and 3. Non-negative means both corners bend the
/// same way, so the cut runs from corner 0 to corner 2.
pub open spec fn quad_normal_dot(p0: Point3, p1: Point3, p2: Point3, p3: Point3) -> int {
    dot3(cross3(sub3(p0, p1), sub3(p1, p2)), cross3(sub3(p2, p3), sub3(p3, p0)))
}

/// The quadrangle cut along the 0-2 diagonal.
pub open spec fn quad_cut_02(poly: Seq<usize>) -> Seq<Triangle> {
    seq![
        Triangle { a: poly[0], b: poly[1], c: poly[2] },
        Triangle { a: poly[2], b: poly[3], c: poly[0] },
    ]
}

/// The quadrangle cut along the 1-3 diagonal.
pub open spec fn quad_cut_13(poly: Seq<usize>) -> Seq<Triangle> {
    seq![
        Triangle { a: poly[0], b: poly[1], c: poly[3] },
        Triangle { a: poly[3], b: poly[1], c: poly[2] },
    ]
}

/// An axis of 3D space.
#[derive(Debug, Clone, Copy, PartialEq, Eq, Structural)]
pub enum Axis {
    /// X.
    X,
    /// Y.
    Y,
    /// Z.
    Z,
}

/// The axis of smallest extent, ties preferring X over Y over Z.
pub open spec fn smallest_direction(w: (int, int, int)) -> Axis {
    if w.0 <= w.1 && w.0 <= w.2 {
        Axis::X
    } else if w.1 <= w.2 {
        Axis::Y
    } else {
        Axis::Z
    }
}

/// The point projected onto the plane that discards `axis`.
pub open spec fn project(p: Point3, axis: Axis) -> (i64, i64) {
    match axis {
        Axis::X => (p.y, p.z),
        Axis::Y => (p.x, p.z),
        Axis::Z => (p.x, p.y),
    }
}

/// The axis an n-gon is flattened along: the axis of smallest bounding-box
/// extent over its corner points.
pub open spec fn ngon_axis(pts: Seq<Point3>) -> Axis {
    match spec_bbox_of(pts) {
        Option::Some(bb) => smallest_direction(
            (
                bb.max.x - bb.min.x,
                bb.max.y - bb.min.y,
                bb.max.z - bb.min.z,
            ),
        ),
        Option::None => Axis::X,
    }
}

/// The corner points flattened to 2D along [`ngon_axis`].
pub open spec fn projected(pts: Seq<Point3>) -> Seq<(i64, i64)> {
    pts.map_values(|p: Point3| project(p, ngon_axis(pts)))
}

/// The turn direction at corner `i` of the projected polygon: true when the
/// perpendicular dot product of the incoming and outgoing edges is positive.
pub open spec fn turn_at(ps2: Seq<(i64, i64)>, i: int) -> bool {
    let n = ps2.len() as int;
    let cur = ps2[i];
    let prev = ps2[if i == 0 { n - 1 } else { i - 1 }];
    let next = ps2[if i + 1 == n { 0 } else { i + 1 }];
    (prev.0 - cur.0) * (cur.1 - next.1) - (prev.1 - cur.1) * (cur.0 - next.0) > 0
}

/// The turn direction of every corner of the n-gon.
pub open spec fn ngon_dirs(pts: Seq<Point3>) -> Seq<bool> {
    Seq::new(pts.len(), |i: int| turn_at(projected(pts), i))
}

/// How many entries are true.
pub open spec fn count_true(s: Seq<bool>) -> int
    decreases s.len(),
{
    if s.len() == 0 {
        0
    } else {
        count_true(s.drop_last()) + if s.last() {
            1int
        } else {
            0int
        }
    }
}

/// The index of the first occurrence of `v`, or the length when absent.
pub open spec fn first_index(s: Seq<bool>, v: bool) -> int
    decreases s.len(),
{
    if s.len() == 0 {
        0
    } else if s[0] == v {
        0
    } else {
        1 + first_index(s.skip(1), v)
    }
}

/// What [`first_index`] returns: the least index holding `v`, or the length.
pub proof fn lemma_first_index(s: Seq<bool>, v: bool)
    ensures
        0 <= first_index(s, v) <= s.len(),
        first_index(s, v) < s.len() ==> s[first_index(s, v)] == v,
        forall|k: int| 0 <= k < first_index(s, v) ==> s[k] != v,
    decreases s.len(),
{
    if s.len() != 0 && s[0] != v {
        lemma_first_index(s.skip(1), v);
        assert forall|k: int| 0 <= k < first_index(s, v) implies s[k] != v by {
            if k > 0 {
                assert(s.skip(1)[k - 1] == s[k]);
            }
        }
        if first_index(s, v) < s.len() {
            assert(s.skip(1)[first_index(s, v) - 1] == s[first_index(s, v)]);
        }
    }
}

/// True when the n-gon is convex or has at most one reflex vertex on one of
/// the two turn classes, so that a fan triangulation is sound.
pub open spec fn ngon_fan_ok(pts: Seq<Point3>) -> bool {
    let c = count_true(ngon_dirs(pts));
    c <= 1 || c >= pts.len() - 1
}

/// The minority turn classification of the n-gon.
pub open spec fn ngon_minor(pts: Seq<Point3>) -> bool {
    count_true(ngon_dirs(pts)) <= 1
}

/// The fan anchor: the first corner whose turn direction matches the minority
/// classification, or corner 0 when there is none.
pub open spec fn ngon_anchor(pts: Seq<Point3>) -> int {
    let dirs = ngon_dirs(pts);
    let fi = first_index(dirs, ngon_minor(pts));
    if fi < dirs.len() {
        fi
    } else {
        0
    }
}

/// `a + d` wrapped into `0..n`; sound for `0 <= a < n` and `0 <= d <= n`.
pub open spec fn wrap_add(a: int, d: int, n: int) -> int {
    if a + d < n {
        a + d
    } else {
        a + d - n
    }
}

/// Triangle `k` of the fan anchored at corner `a`.
pub open spec fn fan_tri(poly: Seq<usize>, a: int, k: int) -> Triangle {
    let n = poly.len() as int;
    Triangle {
        a: poly[a],
        b: poly[wrap_add(a, k + 1, n)],
        c: poly[wrap_add(a, k + 2, n)],
    }
}

/// The whole fan anchored at corner `a`: `n - 2` triangles.
pub open spec fn spec_fan(poly: Seq<usize>, a: int) -> Seq<Triangle> {
    Seq::new((poly.len() - 2) as nat, |k: int| fan_tri(poly, a, k))
}

/// The triangulation of one polygon, exactly as [`triangulator`] computes it.
pub open spec fn spec_triangulate_polygon(
    cps: Seq<Point3>,
    raw: Seq<i32>,
    poly: Seq<usize>,
) -> Result<Seq<Triangle>, Error> {
    let n = poly.len() as int;
    if n < 3 {
        Result::Err(Error::InvalidPolygon)
    } else if n == 3 {
        Result::Ok(seq![Triangle { a: poly[0], b: poly[1], c: poly[2] }])
    } else if !polygon_points_ok(cps, raw, poly) {
        Result::Err(Error::IndexOutOfRange)
    } else {
        let pts = polygon_points(cps, raw, poly);
        if n == 4 {
            if quad_normal_dot(pts[0], pts[1], pts[2], pts[3]) >= 0 {
                Result::Ok(quad_cut_02(poly))
            } else {
                Result::Ok(quad_cut_13(poly))
            }
        } else if ngon_fan_ok(pts) {
            Result::Ok(spec_fan(poly, ngon_anchor(pts)))
        } else {
            Result::Err(Error::UnsupportedPolygon)
        }
    }
}

/// Decodes one raw polygon-vertex entry into its control-point index.
fn cpi_of(rawv: i32) -> (r: u32)
    ensures
        r as int == spec_cpi(rawv),
{
    if rawv < 0 {
        ((-(rawv as i64)) - 1) as u32
    } else {
        rawv as u32
    }
}

/// Fetches the control point behind one polygon-vertex index.
pub(crate) fn get_point(cps: &Vec<Point3>, raw: &Vec<i32>, pvi: usize) -> (r: Result<Point3, Error>)
    ensures
        pvi_ok(cps@, raw@, pvi as int) ==> r == Result::Ok::<Point3, Error>(
            point_at(cps@, raw@, pvi as int),
        ),
        !pvi_ok(cps@, raw@, pvi as int) ==> r == Result::Err::<Point3, Error>(
            Error::IndexOutOfRange,
        ),
{
    if pvi >= raw.len() {
        return Result::Err(Error::IndexOutOfRange);
    }
    let cpi = cpi_of(raw[pvi]);
    if (cpi as usize) < cps.len() {
        Result::Ok(cps[cpi as usize])
    } else {
        Result::Err(Error::IndexOutOfRange)
    }
}

/// Multiplies two bounded factors; the product stays within 2^60.
fn mul_small(a: i64, b: i64) -> (r: i64)
    requires
        -0x4000_0000 <= a <= 0x4000_0000,
        -0x4000_0000 <= b <= 0x4000_0000,
    ensures
        r == a * b,
        -0x1000_0000_0000_0000 <= r <= 0x1000_0000_0000_0000,
{
    proof {
        assert(-0x1000_0000_0000_0000 <= (a as int) * (b as int) <= 0x1000_0000_0000_0000)
            by (nonlinear_arith)
            requires
                -0x4000_0000 <= a <= 0x4000_0000,
                -0x4000_0000 <= b <= 0x4000_0000,
        ;
    }
    a * b
}

/// Multiplies two word-sized factors into a double-width result.
fn mul_wide(a: i64, b: i64) -> (r: i128)
    ensures
        r == (a as int) * (b as int),
{
    proof {
        assert(i128::MIN <= (a as int) * (b as int) <= i128::MAX) by (nonlinear_arith)
            requires
                i64::MIN <= a <= i64::MAX,
                i64::MIN <= b <= i64::MAX,
        ;
    }
    (a as i128) * (b as i128)
}

/// Component-wise difference of two in-range points; each component stays
/// within 2^30.
fn sub_points(a: &Point3, b: &Point3) -> (r: (i64, i64, i64))
    requires
        a.wf(),
        b.wf(),
    ensures
        r.0 == a.x - b.x,
        r.1 == a.y - b.y,
        r.2 == a.z - b.z,
        -0x4000_0000 <= r.0 <= 0x4000_0000,
        -0x4000_0000 <= r.1 <= 0x4000_0000,
        -0x4000_0000 <= r.2 <= 0x4000_0000,
{
    (a.x - b.x, a.y - b.y, a.z - b.z)
}

/// The concavity test for a quadrangle, computed exactly.
fn quad_dot(p0: &Point3, p1: &Point3, p2: &Point3, p3: &Point3) -> (r: i128)
    requires
        p0.wf(),
        p1.wf(),
        p2.wf(),
        p3.wf(),
    ensures
        r == quad_normal_dot(*p0, *p1, *p2, *p3),
{
    let u = sub_points(p0, p1);
    let v = sub_points(p1, p2);
    let s = sub_points(p2, p3);
    let t = sub_points(p3, p0);
    let n1 = (
        mul_small(u.1, v.2) - mul_small(u.2, v.1),
        mul_small(u.2, v.0) - mul_small(u.0, v.2),
        mul_small(u.0, v.1) - mul_small(u.1, v.0),
    );
    let n3 = (
        mul_small(s.1, t.2) - mul_small(s.2, t.1),
        mul_small(s.2, t.0) - mul_small(s.0, t.2),
        mul_small(s.0, t.1) - mul_small(s.1, t.0),
    );
    let x = mul_wide(n1.0, n3.0);
    let y = mul_wide(n1.1, n3.1);
    let z = mul_wide(n1.2, n3.2);
    proof {
        let bound: int = 0x2000_0000_0000_0000;
        assert((x as int) + (y as int) + (z as int) == quad_normal_dot(*p0, *p1, *p2, *p3));
        assert(-bound * bound <= (n1.0 as int) * (n3.0 as int) <= bound * bound)
            by (nonlinear_arith)
            requires
                -bound <= n1.0 <= bound,
                -bound <= n3.0 <= bound,
        ;
        assert(-bound * bound <= (n1.1 as int) * (n3.1 as int) <= bound * bound)
            by (nonlinear_arith)
            requires
                -bound <= n1.1 <= bound,
                -bound <= n3.1 <= bound,
        ;
        assert(-bound * bound <= (n1.2 as int) * (n3.2 as int) <= bound * bound)
            by (nonlinear_arith)
            requires
                -bound <= n1.2 <= bound,
                -bound <= n3.2 <= bound,
        ;
    }
    x + y + z
}

/// Corner points of non-empty well-formed input keep the bounding-box corners
/// in range.
proof fn lemma_insert_all_wf(b: BoundingBox3d, ps: Seq<Point3>)
    requires
        b.min.wf(),
        b.max.wf(),
        forall|i: int| 0 <= i < ps.len() ==> (#[trigger] ps[i]).wf(),
    ensures
        spec_insert_all(b, ps).min.wf(),
        spec_insert_all(b, ps).max.wf(),
    decreases ps.len(),
{
    if ps.len() > 0 {
        assert(ps[0].wf());
        assert forall|i: int| 0 <= i < ps.skip(1).len() implies (#[trigger] ps.skip(1)[i]).wf() by {
            assert(ps.skip(1)[i] == ps[i + 1]);
        }
        lemma_insert_all_wf(spec_insert(b, ps[0]), ps.skip(1));
    }
}

/// Triangulates one polygon of the mesh, appending the triangles to
/// `results`.
///
/// The exact result, case by case, is [`spec_triangulate_polygon`]; on any
/// failure `results` is left untouched.
pub fn triangulator(
    cps: &Vec<Point3>,
    raw: &Vec<i32>,
    poly_pvis: &Vec<usize>,
    results: &mut Vec<Triangle>,
) -> (r: Result<(), Error>)
    requires
        forall|i: int| 0 <= i < cps@.len() ==> (#[trigger] cps@[i]).wf(),
    ensures
        match spec_triangulate_polygon(cps@, raw@, poly_pvis@) {
            Result::Ok(ts) => r is Ok && final(results)@ == old(results)@ + ts,
            Result::Err(e) => r == Result::Err::<(), Error>(e) && final(results)@ == old(
                results,
            )@,
        },
{
    let ghost base = results@;
    let n = poly_pvis.len();
    if n < 3 {
        return Result::Err(Error::InvalidPolygon);
    }
    if n == 3 {
        let t = Triangle { a: poly_pvis[0], b: poly_pvis[1], c: poly_pvis[2] };
        results.push(t);
        proof {
            assert(results@ =~= base + seq![t]);
        }
        return Result::Ok(());
    }
    // n >= 4: gather the corner points.
    let mut points: Vec<Point3> = Vec::new();
    let mut i: usize = 0;
    while i < n
        invariant
            i <= n,
            n == poly_pvis@.len(),
            n >= 4,
            results@ == old(results)@,
            base == old(results)@,
            forall|j: int| 0 <= j < cps@.len() ==> (#[trigger] cps@[j]).wf(),
            forall|j: int| 0 <= j < i ==> pvi_ok(cps@, raw@, #[trigger] poly_pvis@[j] as int),
            points@.len() == i,
            forall|j: int|
                0 <= j < i ==> #[trigger] points@[j] == point_at(
                    cps@,
                    raw@,
                    poly_pvis@[j] as int,
                ),
        decreases n - i,
    {
        match get_point(cps, raw, poly_pvis[i]) {
            Result::Ok(p) => points.push(p),
            Result::Err(e) => {
                proof {
                    assert(!pvi_ok(cps@, raw@, poly_pvis@[i as int] as int));
                    assert(!polygon_points_ok(cps@, raw@, poly_pvis@));
                }
                return Result::Err(e);
            },
        }
        i = i + 1;
    }
    proof {
        assert(polygon_points_ok(cps@, raw@, poly_pvis@));
        assert(points@ =~= polygon_points(cps@, raw@, poly_pvis@));
        assert(forall|j: int| 0 <= j < points@.len() ==> (#[trigger] points@[j]).wf());
    }

    if n == 4 {
        let d = quad_dot(&points[0], &points[1], &points[2], &points[3]);
        if d >= 0 {
            let t1 = Triangle { a: poly_pvis[0], b: poly_pvis[1], c: poly_pvis[2] };
            let t2 = Triangle { a: poly_pvis[2], b: poly_pvis[3], c: poly_pvis[0] };
            results.push(t1);
            results.push(t2);
            proof {
                assert(results@ =~= base + quad_cut_02(poly_pvis@));
            }
        } else {
            let t1 = Triangle { a: poly_pvis[0], b: poly_pvis[1], c: poly_pvis[3] };
            let t2 = Triangle { a: poly_pvis[3], b: poly_pvis[1], c: poly_pvis[2] };
            results.push(t1);
            results.push(t2);
            proof {
                assert(results@ =~= base + quad_cut_13(poly_pvis@));
            }
        }
        return Result::Ok(());
    }

    // n >= 5: flatten along the axis of smallest bounding-box extent.
    let obb = OptionalBoundingBox3d::from_points(&points);
    let bb = match obb.bounding_box() {
        Option::Some(bb) => bb,
        Option::None => {
            // Unreachable: the polygon has at least 5 corners.
            proof {
                assert(spec_bbox_of(points@) is Some);
            }
            return Result::Err(Error::InvalidPolygon);
        },
    };
    proof {
        assert forall|j: int| 0 <= j < points@.skip(1).len() implies (
        #[trigger] points@.skip(1)[j]).wf() by {
            assert(points@.skip(1)[j] == points@[j + 1]);
        }
        lemma_insert_all_wf(spec_from_point(points@[0]), points@.skip(1));
        assert(bb.min.wf() && bb.max.wf());
    }
    let wx = bb.max().x - bb.min().x;
    let wy = bb.max().y - bb.min().y;
    let wz = bb.max().z - bb.min().z;
    let axis = if wx <= wy && wx <= wz {
        Axis::X
    } else if wy <= wz {
        Axis::Y
    } else {
        Axis::Z
    };
    proof {
        assert(axis == ngon_axis(points@));
    }

    let mut ps2: Vec<(i64, i64)> = Vec::new();
    let mut i: usize = 0;
    while i < n
        invariant
            i <= n,
            n == points@.len(),
            axis == ngon_axis(points@),
            ps2@.len() == i,
            forall|j: int| 0 <= j < i ==> #[trigger] ps2@[j] == project(points@[j], axis),
        decreases n - i,
    {
        let p = &points[i];
        let q = match axis {
            Axis::X => (p.y, p.z),
            Axis::Y => (p.x, p.z),
            Axis::Z => (p.x, p.y),
        };
        ps2.push(q);
        i = i + 1;
    }
    proof {
        assert(ps2@ =~= projected(points@));
    }

    // Classify the turn direction of every corner.
    let mut dirs: Vec<bool> = Vec::new();
    let mut i: usize = 0;
    while i < n
        invariant
            i <= n,
            n == ps2@.len(),
            n >= 5,
            forall|j: int|
                0 <= j < n ==> -MAX_COORD <= (#[trigger] ps2@[j]).0 <= MAX_COORD && -MAX_COORD
                    <= ps2@[j].1 <= MAX_COORD,
            dirs@.len() == i,
            forall|j: int| 0 <= j < i ==> #[trigger] dirs@[j] == turn_at(ps2@, j),
        decreases n - i,
    {
        let cur = ps2[i];
        let prev = if i == 0 {
            ps2[n - 1]
        } else {
            ps2[i - 1]
        };
        let next = if i + 1 == n {
            ps2[0]
        } else {
            ps2[i + 1]
        };
        let d = mul_small(prev.0 - cur.0, cur.1 - next.1) - mul_small(
            prev.1 - cur.1,
            cur.0 - next.0,
        );
        dirs.push(d > 0);
        i = i + 1;
    }

    // Count the concave corners.
    let mut cnt: usize = 0;
    let mut i: usize = 0;
    while i < n
        invariant
            i <= n,
            n == dirs@.len(),
            cnt == count_true(dirs@.subrange(0, i as int)),
            cnt <= i,
        decreases n - i,
    {
        proof {
            let pre = dirs@.subrange(0, i as int);
            let post = dirs@.subrange(0, i as int + 1);
            assert(post.drop_last() =~= pre);
            assert(post.last() == dirs@[i as int]);
        }
        if dirs[i] {
            cnt = cnt + 1;
        }
        i = i + 1;
    }
    proof {
        assert(dirs@.subrange(0, n as int) =~= dirs@);
        assert(dirs@ =~= ngon_dirs(points@));
    }

    if !(cnt <= 1 || cnt >= n - 1) {
        proof {
            assert(!ngon_fan_ok(points@));
        }
        return Result::Err(Error::UnsupportedPolygon);
    }
    let minor = cnt <= 1;

    // Pick the fan anchor: the first corner classified with the minority
    // sign, corner 0 when the polygon is fully convex.
    let mut j: usize = 0;
    while j < n && dirs[j] != minor
        invariant
            j <= n,
            n == dirs@.len(),
            forall|k: int| 0 <= k < j ==> dirs@[k] != minor,
        decreases n - j,
    {
        j = j + 1;
    }
    let anchor = if j < n {
        j
    } else {
        0
    };
    proof {
        lemma_first_index(dirs@, minor);
        assert(minor == ngon_minor(points@));
        if j < n {
            assert(first_index(dirs@, minor) == j as int);
        } else {
            assert(first_index(dirs@, minor) == n as int);
        }
        assert(anchor as int == ngon_anchor(points@));
    }

    // Emit the fan.
    let mut i1 = if anchor + 1 == n {
        0
    } else {
        anchor + 1
    };
    let mut i2 = if i1 + 1 == n {
        0
    } else {
        i1 + 1
    };
    let mut k: usize = 0;
    while k < n - 2
        invariant
            k <= n - 2,
            n == poly_pvis@.len(),
            n >= 5,
            0 <= anchor < n,
            i1 as int == wrap_add(anchor as int, k as int + 1, n as int),
            i2 as int == wrap_add(anchor as int, k as int + 2, n as int),
            results@ == base + spec_fan(poly_pvis@, anchor as int).subrange(0, k as int),
        decreases n - k,
    {
        let t = Triangle { a: poly_pvis[anchor], b: poly_pvis[i1], c: poly_pvis[i2] };
        results.push(t);
        proof {
            assert(t == fan_tri(poly_pvis@, anchor as int, k as int));
            assert(spec_fan(poly_pvis@, anchor as int).subrange(0, k as int + 1)
                =~= spec_fan(poly_pvis@, anchor as int).subrange(0, k as int).push(t));
        }
        i1 = i2;
        i2 = if i2 + 1 == n {
            0
        } else {
            i2 + 1
        };
        k = k + 1;
    }
    proof {
        assert(spec_fan(poly_pvis@, anchor as int).subrange(0, (n - 2) as int) =~= spec_fan(
            poly_pvis@,
            anchor as int,
        ));
    }
    Result::Ok(())
}

/// An undirected edge between two polygon corners, keyed order-free.
pub open spec fn edge_key(u: usize, v: usize) -> (usize, usize) {
    if u <= v {
        (u, v)
    } else {
        (v, u)
    }
}

/// The three undirected edges of a triangle.
pub open spec fn tri_edges(t: Triangle) -> Multiset<(usize, usize)> {
    Multiset::empty().insert(edge_key(t.a, t.b)).insert(edge_key(t.b, t.c)).insert(
        edge_key(t.c, t.a),
    )
}

/// The undirected edges of a triangle list, with multiplicity.
pub open spec fn tris_edges(ts: Seq<Triangle>) -> Multiset<(usize, usize)>
    decreases ts.len(),
{
    if ts.len() == 0 {
        Multiset::empty()
    } else {
        tris_edges(ts.drop_last()).add(tri_edges(ts.last()))
    }
}

/// One more triangle contributes its three edges.
pub proof fn lemma_tris_edges_push(ts: Seq<Triangle>, t: Triangle)
    ensures
        tris_edges(ts.push(t)) == tris_edges(ts).add(tri_edges(t)),
{
    assert(ts.push(t).drop_last() =~= ts);
    assert(ts.push(t).last() == t);
}

/// The polygon's boundary edges, one per corner, in corner order.
pub open spec fn edge_seq(poly: Seq<usize>) -> Seq<(usize, usize)> {
    Seq::new(
        poly.len(),
        |i: int| edge_key(poly[i], poly[if i + 1 == poly.len() { 0int } else { i + 1 }]),
    )
}

/// The polygon's boundary edges as a multiset.
pub open spec fn boundary_edges(poly: Seq<usize>) -> Multiset<(usize, usize)> {
    edge_seq(poly).to_multiset()
}

/// The diagonals a fan anchored at corner `a` cuts along: the anchor joined
/// to every corner but itself and its two neighbours.
pub open spec fn diag_seq(poly: Seq<usize>, a: int) -> Seq<(usize, usize)> {
    Seq::new(
        (poly.len() - 3) as nat,
        |k: int| edge_key(poly[a], poly[wrap_add(a, k + 2, poly.len() as int)]),
    )
}

/// The fan's diagonals as a multiset.
pub open spec fn fan_diagonals(poly: Seq<usize>, a: int) -> Multiset<(usize, usize)> {
    diag_seq(poly, a).to_multiset()
}

/// The boundary edges walked from the anchor on: the edge sequence rotated by
/// `a`, which carries the same multiset.
pub open spec fn rot_edge_seq(poly: Seq<usize>, a: int) -> Seq<(usize, usize)> {
    Seq::new(
        poly.len(),
        |d: int|
            edge_key(
                poly[wrap_add(a, d, poly.len() as int)],
                poly[wrap_add(a, d + 1, poly.len() as int)],
            ),
    )
}

/// Rotating the boundary walk does not change the edge multiset.
proof fn lemma_rot_edges(poly: Seq<usize>, a: int)
    requires
        poly.len() >= 3,
        0 <= a < poly.len(),
    ensures
        rot_edge_seq(poly, a).to_multiset() == boundary_edges(poly),
{
    let n = poly.len() as int;
    let es = edge_seq(poly);
    let hi = es.subrange(a, n);
    let lo = es.subrange(0, a);
    assert forall|d: int| 0 <= d < n implies rot_edge_seq(poly, a)[d] == (hi + lo)[d] by {
        if d < n - a {
            assert((hi + lo)[d] == es[a + d]);
            assert(wrap_add(a, d, n) == a + d);
        } else {
            assert((hi + lo)[d] == es[a + d - n]);
            assert(wrap_add(a, d, n) == a + d - n);
        }
    }
    assert(rot_edge_seq(poly, a) =~= hi + lo);
    assert(es =~= lo + hi);
    vstd::seq_lib::lemma_multiset_commutative(hi, lo);
    vstd::seq_lib::lemma_multiset_commutative(lo, hi);
    assert(rot_edge_seq(poly, a).to_multiset() =~= boundary_edges(poly));
}

/// Swapping an edge's endpoints does not change its key.
proof fn lemma_edge_key_symmetric(u: usize, v: usize)
    ensures
        edge_key(u, v) == edge_key(v, u),
{
}

/// Every partial fan is watertight up to its open side: the boundary walked
/// so far, each inner diagonal twice, and the one diagonal still open.
proof fn lemma_fan_watertight_prefix(poly: Seq<usize>, a: int, j: int)
    requires
        poly.len() >= 3,
        0 <= a < poly.len(),
        1 <= j <= poly.len() - 2,
    ensures
        tris_edges(spec_fan(poly, a).subrange(0, j)) == rot_edge_seq(poly, a).subrange(
            0,
            j + 1,
        ).to_multiset().add(diag_seq(poly, a).subrange(0, j - 1).to_multiset()).add(
            diag_seq(poly, a).subrange(0, j - 1).to_multiset(),
        ).insert(edge_key(poly[a], poly[wrap_add(a, j + 1, poly.len() as int)])),
    decreases j,
{
    broadcast use vstd::seq_lib::to_multiset_build;

    let n = poly.len() as int;
    let fan = spec_fan(poly, a);
    let rot = rot_edge_seq(poly, a);
    let diag = diag_seq(poly, a);
    if j == 1 {
        let t0 = fan_tri(poly, a, 0);
        assert(fan.subrange(0, 1) =~= Seq::empty().push(t0));
        lemma_tris_edges_push(Seq::empty(), t0);
        assert(tris_edges(Seq::<Triangle>::empty()) == Multiset::<(usize, usize)>::empty());
        assert(rot.subrange(0, 2) =~= Seq::empty().push(rot[0]).push(rot[1]));
        assert(Seq::<(usize, usize)>::empty().to_multiset() =~= Multiset::<
            (usize, usize),
        >::empty()) by {
            broadcast use vstd::seq_lib::group_to_multiset_ensures;

            assert forall|e: (usize, usize)|
                Seq::<(usize, usize)>::empty().to_multiset().count(e) == 0 by {
                assert(!Seq::<(usize, usize)>::empty().contains(e));
            }
        }
        assert(diag.subrange(0, 0) =~= Seq::<(usize, usize)>::empty());
        assert(rot[0] == edge_key(poly[a], poly[wrap_add(a, 1, n)])) by {
            assert(wrap_add(a, 0, n) == a);
        }
        assert(rot[1] == edge_key(poly[wrap_add(a, 1, n)], poly[wrap_add(a, 2, n)]));
        lemma_edge_key_symmetric(poly[wrap_add(a, 2, n)], poly[a]);
        assert(tris_edges(fan.subrange(0, 1)) =~= rot.subrange(0, 2).to_multiset().add(
            diag.subrange(0, 0).to_multiset(),
        ).add(diag.subrange(0, 0).to_multiset()).insert(
            edge_key(poly[a], poly[wrap_add(a, 2, n)]),
        ));
    } else {
        lemma_fan_watertight_prefix(poly, a, j - 1);
        let t = fan_tri(poly, a, j - 1);
        assert(fan.subrange(0, j) =~= fan.subrange(0, j - 1).push(t));
        lemma_tris_edges_push(fan.subrange(0, j - 1), t);
        assert(rot.subrange(0, j + 1) =~= rot.subrange(0, j).push(rot[j]));
        assert(diag.subrange(0, j - 1) =~= diag.subrange(0, j - 2).push(diag[j - 2]));
        assert(diag[j - 2] == edge_key(poly[a], poly[wrap_add(a, j, n)]));
        assert(rot[j] == edge_key(poly[wrap_add(a, j, n)], poly[wrap_add(a, j + 1, n)]));
        assert(t.a == poly[a] && t.b == poly[wrap_add(a, j, n)] && t.c == poly[wrap_add(
            a,
            j + 1,
            n,
        )]);
        lemma_edge_key_symmetric(poly[wrap_add(a, j + 1, n)], poly[a]);
        assert(tris_edges(fan.subrange(0, j)) =~= rot.subrange(0, j + 1).to_multiset().add(
            diag.subrange(0, j - 1).to_multiset(),
        ).add(diag.subrange(0, j - 1).to_multiset()).insert(
            edge_key(poly[a], poly[wrap_add(a, j + 1, n)]),
        ));
    }
}

/// Watertightness of the fan: its edges cover each boundary edge of the
/// polygon exactly once and each diagonal from the anchor exactly twice.
pub proof fn lemma_fan_watertight(poly: Seq<usize>, a: int)
    requires
        poly.len() >= 3,
        0 <= a < poly.len(),
    ensures
        tris_edges(spec_fan(poly, a)) == boundary_edges(poly).add(fan_diagonals(poly, a)).add(
            fan_diagonals(poly, a),
        ),
{
    broadcast use vstd::seq_lib::to_multiset_build;

    let n = poly.len() as int;
    let fan = spec_fan(poly, a);
    let rot = rot_edge_seq(poly, a);
    let diag = diag_seq(poly, a);
    lemma_fan_watertight_prefix(poly, a, n - 2);
    assert(fan.subrange(0, n - 2) =~= fan);
    assert(diag.subrange(0, n - 3) =~= diag);
    assert(rot[n - 1] == edge_key(poly[wrap_add(a, n - 1, n)], poly[a])) by {
        assert(wrap_add(a, n, n) == a);
    }
    lemma_edge_key_symmetric(poly[a], poly[wrap_add(a, n - 1, n)]);
    assert(rot.subrange(0, n) =~= rot.subrange(0, n - 1).push(rot[n - 1]));
    assert(rot.subrange(0, n) =~= rot);
    lemma_rot_edges(poly, a);
    assert(tris_edges(fan) =~= boundary_edges(poly).add(fan_diagonals(poly, a)).add(
        fan_diagonals(poly, a),
    ));
}

/// Watertightness of every triangulation this module emits: some anchor
/// corner accounts for all edges, boundary edges once and diagonals twice.
/// For a triangle the anchor is corner 0 and there is no diagonal; a
/// quadrangle is anchored at one end of its chosen diagonal; an n-gon is
/// anchored at the fan anchor.
pub proof fn lemma_triangulation_watertight(cps: Seq<Point3>, raw: Seq<i32>, poly: Seq<usize>)
    ensures
        match spec_triangulate_polygon(cps, raw, poly) {
            Result::Ok(ts) => exists|a: int|
                0 <= a < poly.len() && tris_edges(ts) == boundary_edges(poly).add(
                    #[trigger] fan_diagonals(poly, a),
                ).add(fan_diagonals(poly, a)),
            Result::Err(_) => true,
        },
{
    broadcast use vstd::seq_lib::to_multiset_build;

    let n = poly.len() as int;
    match spec_triangulate_polygon(cps, raw, poly) {
        Result::Ok(ts) => {
            if n == 3 {
                assert(ts =~= spec_fan(poly, 0)) by {
                    assert(spec_fan(poly, 0).len() == 1);
                    assert(spec_fan(poly, 0)[0] == fan_tri(poly, 0, 0));
                    assert(fan_tri(poly, 0, 0) == (Triangle {
                        a: poly[0],
                        b: poly[1],
                        c: poly[2],
                    }));
                }
                lemma_fan_watertight(poly, 0);
                assert(tris_edges(ts) == boundary_edges(poly).add(fan_diagonals(poly, 0)).add(
                    fan_diagonals(poly, 0),
                ));
            } else if n == 4 {
                let pts = polygon_points(cps, raw, poly);
                if quad_normal_dot(pts[0], pts[1], pts[2], pts[3]) >= 0 {
                    // The 0-2 cut carries the same edges as the fan at 0.
                    let t2 = (Triangle { a: poly[2], b: poly[3], c: poly[0] });
                    let f2 = fan_tri(poly, 0, 1);
                    assert(tri_edges(t2) =~= tri_edges(f2)) by {
                        lemma_edge_key_symmetric(poly[0], poly[2]);
                        lemma_edge_key_symmetric(poly[3], poly[0]);
                    }
                    assert(quad_cut_02(poly) =~= Seq::empty().push(
                        Triangle { a: poly[0], b: poly[1], c: poly[2] },
                    ).push(t2));
                    assert(spec_fan(poly, 0) =~= Seq::empty().push(fan_tri(poly, 0, 0)).push(f2));
                    lemma_tris_edges_push(
                        Seq::empty().push(Triangle { a: poly[0], b: poly[1], c: poly[2] }),
                        t2,
                    );
                    lemma_tris_edges_push(Seq::empty().push(fan_tri(poly, 0, 0)), f2);
                    lemma_tris_edges_push(Seq::empty(), t2);
                    assert(fan_tri(poly, 0, 0) == (Triangle {
                        a: poly[0],
                        b: poly[1],
                        c: poly[2],
                    }));
                    assert(tris_edges(quad_cut_02(poly)) =~= tris_edges(spec_fan(poly, 0)));
                    lemma_fan_watertight(poly, 0);
                    assert(tris_edges(ts) == boundary_edges(poly).add(
                        fan_diagonals(poly, 0),
                    ).add(fan_diagonals(poly, 0)));
                } else {
                    // The 1-3 cut carries the same edges as the fan at 1.
                    let t1 = (Triangle { a: poly[0], b: poly[1], c: poly[3] });
                    let t2 = (Triangle { a: poly[3], b: poly[1], c: poly[2] });
                    let f1 = fan_tri(poly, 1, 0);
                    let f2 = fan_tri(poly, 1, 1);
                    assert(f1 == (Triangle { a: poly[1], b: poly[2], c: poly[3] })) by {
                        assert(wrap_add(1, 1, 4) == 2 && wrap_add(1, 2, 4) == 3);
                    }
                    assert(f2 == (Triangle { a: poly[1], b: poly[3], c: poly[0] })) by {
                        assert(wrap_add(1, 2, 4) == 3 && wrap_add(1, 3, 4) == 0);
                    }
                    assert(tri_edges(t1) =~= tri_edges(f2)) by {
                        lemma_edge_key_symmetric(poly[0], poly[1]);
                        lemma_edge_key_symmetric(poly[1], poly[3]);
                        lemma_edge_key_symmetric(poly[3], poly[0]);
                    }
                    assert(tri_edges(t2) =~= tri_edges(f1)) by {
                        lemma_edge_key_symmetric(poly[3], poly[1]);
                        lemma_edge_key_symmetric(poly[1], poly[2]);
                        lemma_edge_key_symmetric(poly[2], poly[3]);
                    }
                    assert(quad_cut_13(poly) =~= Seq::empty().push(t1).push(t2));
                    assert(spec_fan(poly, 1) =~= Seq::empty().push(f1).push(f2));
                    lemma_tris_edges_push(Seq::empty().push(t1), t2);
                    lemma_tris_edges_push(Seq::empty().push(f1), f2);
                    lemma_tris_edges_push(Seq::empty(), t1);
                    lemma_tris_edges_push(Seq::empty(), f1);
                    assert(tris_edges(quad_cut_13(poly)) =~= tris_edges(spec_fan(poly, 1)));
                    lemma_fan_watertight(poly, 1);
                    assert(tris_edges(ts) == boundary_edges(poly).add(
                        fan_diagonals(poly, 1),
                    ).add(fan_diagonals(poly, 1)));
                }
            } else {
                let pts = polygon_points(cps, raw, poly);
                let a = ngon_anchor(pts);
                lemma_first_index(ngon_dirs(pts), ngon_minor(pts));
                assert(0 <= a < n);
                lemma_fan_watertight(poly, a);
                assert(tris_edges(ts) == boundary_edges(poly).add(fan_diagonals(poly, a)).add(
                    fan_diagonals(poly, a),
                ));
            }
        },
        Result::Err(_) => {},
    }
}

/// The fan's shape: exactly `n - 2` triangles, all sharing the anchor corner.
pub proof fn lemma_fan_shape(poly: Seq<usize>, a: int)
    requires
        poly.len() >= 3,
        0 <= a < poly.len(),
    ensures
        spec_fan(poly, a).len() == poly.len() - 2,
        forall|k: int|
            0 <= k < spec_fan(poly, a).len() ==> (#[trigger] spec_fan(poly, a)[k]).a == poly[a],
{
}

/// A polygon with fewer than three corners cannot bound a surface: it is
/// rejected with the invalid-polygon error, whatever its other data.
pub proof fn lemma_small_polygon_rejected(cps: Seq<Point3>, raw: Seq<i32>, poly: Seq<usize>)
    requires
        poly.len() < 3,
    ensures
        spec_triangulate_polygon(cps, raw, poly) == Result::Err::<Seq<Triangle>, Error>(
            Error::InvalidPolygon,
        ),
{
}

/// The n-gon decision rule: a resolvable polygon of five or more corners is
/// fan-triangulated exactly when at most one corner sits on one of the two
/// turn classes, and is otherwise rejected as unsupported.
pub proof fn lemma_ngon_classification(cps: Seq<Point3>, raw: Seq<i32>, poly: Seq<usize>)
    requires
        poly.len() >= 5,
        polygon_points_ok(cps, raw, poly),
    ensures
        ngon_fan_ok(polygon_points(cps, raw, poly)) ==> spec_triangulate_polygon(cps, raw, poly)
            == Result::Ok::<Seq<Triangle>, Error>(
            spec_fan(poly, ngon_anchor(polygon_points(cps, raw, poly))),
        ),
        !ngon_fan_ok(polygon_points(cps, raw, poly)) ==> spec_triangulate_polygon(cps, raw, poly)
            == Result::Err::<Seq<Triangle>, Error>(Error::UnsupportedPolygon),
{
}

/// The quadrangle decision rule: a resolvable quadrangle is cut along the
/// 0-2 diagonal exactly when the concavity test is non-negative, and along
/// the 1-3 diagonal otherwise.
pub proof fn lemma_quad_split_rule(cps: Seq<Point3>, raw: Seq<i32>, poly: Seq<usize>)
    requires
        poly.len() == 4,
        polygon_points_ok(cps, raw, poly),
    ensures
        ({
            let pts = polygon_points(cps, raw, poly);
            &&& quad_normal_dot(pts[0], pts[1], pts[2], pts[3]) >= 0
                ==> spec_triangulate_polygon(cps, raw, poly) == Result::Ok::<
                Seq<Triangle>,
                Error,
            >(quad_cut_02(poly))
            &&& quad_normal_dot(pts[0], pts[1], pts[2], pts[3]) < 0 ==> spec_triangulate_polygon(
                cps,
                raw,
                poly,
            ) == Result::Ok::<Seq<Triangle>, Error>(quad_cut_13(poly))
        }),
{
}

/// Twice the signed area of a triangle seen in the XY plane.
pub open spec fn tri_area2_xy(a: Point3, b: Point3, c: Point3) -> int {
    (b.x - a.x) * (c.y - a.y) - (b.y - a.y) * (c.x - a.x)
}

/// The quadrangle rule cannot degenerate on a flat quadrangle: in an XY
/// plane the concavity test is exactly the product of the signed areas of
/// the two triangles of the 0-2 cut, so a positive test — a convex or
/// 1-3-reflex quadrangle — yields two triangles of the same nonzero
/// orientation, neither zero-area nor inverted. (For a non-planar quadrangle
/// no cut is exact, and the rule is only a tie-break.)
pub proof fn lemma_planar_quad_cut_nondegenerate(p0: Point3, p1: Point3, p2: Point3, p3: Point3)
    requires
        p0.z == p1.z,
        p1.z == p2.z,
        p2.z == p3.z,
    ensures
        quad_normal_dot(p0, p1, p2, p3) == tri_area2_xy(p0, p1, p2) * tri_area2_xy(p2, p3, p0),
        quad_normal_dot(p0, p1, p2, p3) > 0 ==> tri_area2_xy(p0, p1, p2) != 0 && tri_area2_xy(
            p2,
            p3,
            p0,
        ) != 0 && ((tri_area2_xy(p0, p1, p2) > 0) <==> (tri_area2_xy(p2, p3, p0) > 0)),
{
    let u = sub3(p0, p1);
    let v = sub3(p1, p2);
    let s = sub3(p2, p3);
    let t = sub3(p3, p0);
    assert(u.2 == 0 && v.2 == 0 && s.2 == 0 && t.2 == 0);
    let n1 = cross3(u, v);
    let n3 = cross3(s, t);
    assert(n1.0 == 0 && n1.1 == 0 && n3.0 == 0 && n3.1 == 0);
    assert(quad_normal_dot(p0, p1, p2, p3) == n1.2 * n3.2);
    assert(n1.2 == tri_area2_xy(p0, p1, p2)) by (nonlinear_arith)
        requires
            n1.2 == (p0.x - p1.x) * (p1.y - p2.y) - (p0.y - p1.y) * (p1.x - p2.x),
            tri_area2_xy(p0, p1, p2) == (p1.x - p0.x) * (p2.y - p0.y) - (p1.y - p0.y) * (p2.x
                - p0.x),
    ;
    assert(n3.2 == tri_area2_xy(p2, p3, p0)) by (nonlinear_arith)
        requires
            n3.2 == (p2.x - p3.x) * (p3.y - p0.y) - (p2.y - p3.y) * (p3.x - p0.x),
            tri_area2_xy(p2, p3, p0) == (p3.x - p2.x) * (p0.y - p2.y) - (p3.y - p2.y) * (p0.x
                - p2.x),
    ;
    if quad_normal_dot(p0, p1, p2, p3) > 0 {
        assert(tri_area2_xy(p0, p1, p2) != 0 && tri_area2_xy(p2, p3, p0) != 0 && ((tri_area2_xy(
            p0,
            p1,
            p2,
        ) > 0) <==> (tri_area2_xy(p2, p3, p0) > 0))) by (nonlinear_arith)
            requires
                tri_area2_xy(p0, p1, p2) * tri_area2_xy(p2, p3, p0) > 0,
        ;
    }
}

/// The index of the entry that closes the polygon starting at `start`, or the
/// array length when the last polygon is left open.
pub open spec fn poly_end(raw: Seq<i32>, start: int) -> int
    decreases raw.len() - start,
{
    if start < 0 || start >= raw.len() {
        start
    } else if raw[start] < 0 {
        start
    } else {
        poly_end(raw, start + 1)
    }
}

/// What [`poly_end`] returns: the first closing entry at or after `start`.
pub proof fn lemma_poly_end(raw: Seq<i32>, start: int)
    requires
        0 <= start <= raw.len(),
    ensures
        start <= poly_end(raw, start) <= raw.len(),
        poly_end(raw, start) < raw.len() ==> raw[poly_end(raw, start)] < 0,
        forall|k: int| start <= k < poly_end(raw, start) ==> raw[k] >= 0,
    decreases raw.len() - start,
{
    if start < raw.len() && raw[start] >= 0 {
        lemma_poly_end(raw, start + 1);
    }
}

/// The polygon-vertex indices of all triangles, flattened in emission order.
pub open spec fn flatten_tris(ts: Seq<Triangle>) -> Seq<usize>
    decreases ts.len(),
{
    if ts.len() == 0 {
        Seq::empty()
    } else {
        flatten_tris(ts.drop_last()) + seq![ts.last().a, ts.last().b, ts.last().c]
    }
}

/// Flattening one more triangle appends its three corners.
pub proof fn lemma_flatten_tris_push(ts: Seq<Triangle>, t: Triangle)
    ensures
        flatten_tris(ts.push(t)) == flatten_tris(ts) + seq![t.a, t.b, t.c],
{
    assert(ts.push(t).drop_last() =~= ts);
    assert(ts.push(t).last() == t);
}

/// A successful polygon triangulation yields `n - 2` triangles.
pub proof fn lemma_triangulate_polygon_len(cps: Seq<Point3>, raw: Seq<i32>, poly: Seq<usize>)
    ensures
        match spec_triangulate_polygon(cps, raw, poly) {
            Result::Ok(ts) => ts.len() == poly.len() - 2,
            Result::Err(_) => true,
        },
{
}

/// The triangulation of every polygon from `start` on: the flattened
/// triangle-corner list (as polygon-vertex indices) paired with the owning
/// polygon ordinal of each triangle, numbering from `poly_i`.
pub open spec fn spec_triangulate_from(
    cps: Seq<Point3>,
    raw: Seq<i32>,
    start: int,
    poly_i: int,
) -> Result<(Seq<usize>, Seq<usize>), Error>
    decreases raw.len() - start,
    via spec_triangulate_from_dec
{
    if start < 0 || start >= raw.len() {
        Result::Ok((Seq::empty(), Seq::empty()))
    } else {
        let e = poly_end(raw, start);
        if e >= raw.len() {
            Result::Err(Error::DocumentAccessError)
        } else {
            let poly = Seq::new((e + 1 - start) as nat, |k: int| (start + k) as usize);
            match spec_triangulate_polygon(cps, raw, poly) {
                Result::Ok(ts) => match spec_triangulate_from(cps, raw, e + 1, poly_i + 1) {
                    Result::Ok(rest) => Result::Ok(
                        (
                            flatten_tris(ts) + rest.0,
                            Seq::new(ts.len(), |j: int| poly_i as usize) + rest.1,
                        ),
                    ),
                    Result::Err(er) => Result::Err(er),
                },
                Result::Err(er) => Result::Err(er),
            }
        }
    }
}

#[via_fn]
proof fn spec_triangulate_from_dec(cps: Seq<Point3>, raw: Seq<i32>, start: int, poly_i: int) {
    if 0 <= start < raw.len() {
        lemma_poly_end(raw, start);
    }
}

/// The whole triangulation of a geometry, as [`spec_triangulate_from`] gives
/// it from the first polygon on.
pub open spec fn spec_triangulation(cps: Seq<Point3>, raw: Seq<i32>) -> Result<
    (Seq<usize>, Seq<usize>),
    Error,
> {
    spec_triangulate_from(cps, raw, 0, 0)
}

/// A successful triangulation emits three corner entries per triangle, and at
/// most three per raw polygon-vertex entry.
pub proof fn lemma_triangulate_from_len(cps: Seq<Point3>, raw: Seq<i32>, start: int, poly_i: int)
    requires
        0 <= start <= raw.len(),
    ensures
        match spec_triangulate_from(cps, raw, start, poly_i) {
            Result::Ok(r) => r.0.len() == 3 * r.1.len() && r.0.len() <= 3 * (raw.len() - start),
            Result::Err(_) => true,
        },
    decreases raw.len() - start,
{
    if start < raw.len() {
        let e = poly_end(raw, start);
        lemma_poly_end(raw, start);
        if e < raw.len() {
            let poly = Seq::new((e + 1 - start) as nat, |k: int| (start + k) as usize);
            lemma_triangulate_polygon_len(cps, raw, poly);
            match spec_triangulate_polygon(cps, raw, poly) {
                Result::Ok(ts) => {
                    lemma_triangulate_from_len(cps, raw, e + 1, poly_i + 1);
                    lemma_flatten_tris_len(ts);
                },
                Result::Err(_) => {},
            }
        }
    }
}

/// Flattening yields three entries per triangle.
pub proof fn lemma_flatten_tris_len(ts: Seq<Triangle>)
    ensures
        flatten_tris(ts).len() == 3 * ts.len(),
    decreases ts.len(),
{
    if ts.len() > 0 {
        lemma_flatten_tris_len(ts.drop_last());
    }
}

/// The triangle-corner index structure produced by triangulation: a map from
/// triangle-vertex index to polygon-vertex index, and from triangle ordinal to
/// the polygon it was cut from.
#[derive(Debug, Clone)]
pub struct TriangleVertices {
    /// Polygon-vertex index of each triangle corner, in emission order.
    pub tri_pv_indices: Vec<usize>,
    /// Owning polygon ordinal of each triangle.
    pub tri_poly_indices: Vec<usize>,
}

/// Triangulates every polygon of the geometry's raw polygon-vertex index
/// array, exactly as [`spec_triangulation`] describes.
pub fn triangulate_each(cps: &Vec<Point3>, raw: &Vec<i32>) -> (r: Result<TriangleVertices, Error>)
    requires
        forall|i: int| 0 <= i < cps@.len() ==> (#[trigger] cps@[i]).wf(),
    ensures
        match r {
            Result::Ok(tv) => spec_triangulation(cps@, raw@) == Result::Ok::<
                (Seq<usize>, Seq<usize>),
                Error,
            >((tv.tri_pv_indices@, tv.tri_poly_indices@)),
            Result::Err(e) => spec_triangulation(cps@, raw@) == Result::Err::<
                (Seq<usize>, Seq<usize>),
                Error,
            >(e),
        },
{
    let mut tri_pv: Vec<usize> = Vec::new();
    let mut tri_poly: Vec<usize> = Vec::new();
    let mut start: usize = 0;
    let mut poly_i: usize = 0;
    while start < raw.len()
        invariant
            0 <= start <= raw@.len(),
            poly_i <= start,
            forall|i: int| 0 <= i < cps@.len() ==> (#[trigger] cps@[i]).wf(),
            match spec_triangulate_from(cps@, raw@, start as int, poly_i as int) {
                Result::Ok(rest) => spec_triangulation(cps@, raw@) == Result::Ok::<
                    (Seq<usize>, Seq<usize>),
                    Error,
                >((tri_pv@ + rest.0, tri_poly@ + rest.1)),
                Result::Err(e) => spec_triangulation(cps@, raw@) == Result::Err::<
                    (Seq<usize>, Seq<usize>),
                    Error,
                >(e),
            },
        decreases raw@.len() - start,
    {
        // Find the entry that closes this polygon.
        let mut e: usize = start;
        while e < raw.len() && raw[e] >= 0
            invariant
                start <= e <= raw@.len(),
                forall|k: int| start <= k < e ==> raw@[k] >= 0,
            decreases raw@.len() - e,
        {
            e = e + 1;
        }
        proof {
            lemma_poly_end(raw@, start as int);
            let pe = poly_end(raw@, start as int);
            if e < raw.len() {
                if pe < e as int {
                    assert(raw@[pe] >= 0);
                    assert(false);
                }
                if pe > e as int {
                    assert(raw@[e as int] >= 0);
                    assert(false);
                }
            } else {
                if pe < raw@.len() {
                    assert(raw@[pe] >= 0);
                    assert(false);
                }
            }
            assert(pe == e as int);
        }
        if e >= raw.len() {
            // Incomplete polygon: the document never closed it.
            return Result::Err(Error::DocumentAccessError);
        }

        // The polygon's vertex indices are the consecutive run start..=e.
        let mut poly: Vec<usize> = Vec::new();
        let mut k: usize = start;
        while k <= e
            invariant
                start <= k <= e + 1,
                e < raw@.len(),
                e < usize::MAX,
                poly@.len() == k - start,
                forall|j: int| 0 <= j < poly@.len() ==> #[trigger] poly@[j] == start + j,
            decreases e + 1 - k,
        {
            poly.push(k);
            k = k + 1;
        }
        proof {
            assert(poly@ =~= Seq::new(
                (e + 1 - start) as nat,
                |j: int| (start as int + j) as usize,
            ));
        }

        let mut tris: Vec<Triangle> = Vec::new();
        let ghost spec_poly = Seq::new((e + 1 - start) as nat, |j: int| (start as int + j) as usize);
        match triangulator(cps, raw, &poly, &mut tris) {
            Result::Ok(()) => {},
            Result::Err(er) => {
                return Result::Err(er);
            },
        }
        proof {
            assert(tris@ =~= match spec_triangulate_polygon(cps@, raw@, spec_poly) {
                Result::Ok(ts) => ts,
                Result::Err(_) => tris@,
            });
        }

        // Append the polygon's triangles to the flattened structure.
        let ghost pv_base = tri_pv@;
        let ghost poly_base = tri_poly@;
        let mut t: usize = 0;
        while t < tris.len()
            invariant
                t <= tris@.len(),
                tri_pv@ == pv_base + flatten_tris(tris@.subrange(0, t as int)),
                tri_poly@ == poly_base + Seq::new(t as nat, |j: int| poly_i as usize),
            decreases tris@.len() - t,
        {
            proof {
                let pre = tris@.subrange(0, t as int);
                let post = tris@.subrange(0, t as int + 1);
                assert(post =~= pre.push(tris@[t as int]));
                lemma_flatten_tris_push(pre, tris@[t as int]);
                assert(pv_base + flatten_tris(pre) + seq![
                    tris@[t as int].a,
                    tris@[t as int].b,
                    tris@[t as int].c,
                ] =~= pv_base + flatten_tris(post));
                assert((poly_base + Seq::new(t as nat, |j: int| poly_i as usize)).push(poly_i)
                    =~= poly_base + Seq::new((t + 1) as nat, |j: int| poly_i as usize));
            }
            let tr = tris[t];
            tri_pv.push(tr.a);
            tri_pv.push(tr.b);
            tri_pv.push(tr.c);
            tri_poly.push(poly_i);
            t = t + 1;
        }
        proof {
            assert(tris@.subrange(0, tris@.len() as int) =~= tris@);
            let ts = match spec_triangulate_polygon(cps@, raw@, spec_poly) {
                Result::Ok(ts) => ts,
                Result::Err(_) => tris@,
            };
            match spec_triangulate_from(cps@, raw@, e as int + 1, poly_i as int + 1) {
                Result::Ok(rest) => {
                    assert(pv_base + (flatten_tris(ts) + rest.0) =~= tri_pv@ + rest.0);
                    assert(poly_base + (Seq::new(ts.len(), |j: int| poly_i as usize) + rest.1)
                        =~= tri_poly@ + rest.1);
                },
                Result::Err(_) => {},
            }
        }
        start = e + 1;
        poly_i = poly_i + 1;
    }
    proof {
        assert(tri_pv@ + Seq::<usize>::empty() =~= tri_pv@);
        assert(tri_poly@ + Seq::<usize>::empty() =~= tri_poly@);
    }
    Result::Ok(TriangleVertices { tri_pv_indices: tri_pv, tri_poly_indices: tri_poly })
}

} // verus!
