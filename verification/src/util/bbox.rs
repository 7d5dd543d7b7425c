//! Axis-aligned 3D bounding boxes over fixed-point points.

use vstd::prelude::*;

use crate::math::Point3;

verus! {

/// Smaller of two integers.
pub open spec fn min_i(a: int, b: int) -> int {
    if a <= b {
        a
    } else {
        b
    }
}

/// Larger of two integers.
pub open spec fn max_i(a: int, b: int) -> int {
    if a <= b {
        b
    } else {
        a
    }
}

/// A non-empty axis-aligned 3D bounding box.
#[derive(Debug, Clone, Copy, PartialEq, Eq, Structural)]
pub struct BoundingBox3d {
    /// Minimum corner.
    pub min: Point3,
    /// Maximum corner.
    pub max: Point3,
}

/// The box grown just enough to contain `p`.
pub open spec fn spec_insert(b: BoundingBox3d, p: Point3) -> BoundingBox3d {
    BoundingBox3d {
        min: Point3 {
            x: min_i(b.min.x as int, p.x as int) as i64,
            y: min_i(b.min.y as int, p.y as int) as i64,
            z: min_i(b.min.z as int, p.z as int) as i64,
        },
        max: Point3 {
            x: max_i(b.max.x as int, p.x as int) as i64,
            y: max_i(b.max.y as int, p.y as int) as i64,
            z: max_i(b.max.z as int, p.z as int) as i64,
        },
    }
}

/// The smallest box containing both boxes.
pub open spec fn spec_union(a: BoundingBox3d, b: BoundingBox3d) -> BoundingBox3d {
    BoundingBox3d {
        min: Point3 {
            x: min_i(a.min.x as int, b.min.x as int) as i64,
            y: min_i(a.min.y as int, b.min.y as int) as i64,
            z: min_i(a.min.z as int, b.min.z as int) as i64,
        },
        max: Point3 {
            x: max_i(a.max.x as int, b.max.x as int) as i64,
            y: max_i(a.max.y as int, b.max.y as int) as i64,
            z: max_i(a.max.z as int, b.max.z as int) as i64,
        },
    }
}

/// The degenerate box holding exactly one point.
pub open spec fn spec_from_point(p: Point3) -> BoundingBox3d {
    BoundingBox3d { min: p, max: p }
}

/// `b` grown to contain every point of `ps`, in order.
pub open spec fn spec_insert_all(b: BoundingBox3d, ps: Seq<Point3>) -> BoundingBox3d
    decreases ps.len(),
{
    if ps.len() == 0 {
        b
    } else {
        spec_insert_all(spec_insert(b, ps[0]), ps.skip(1))
    }
}

/// The bounding box of a point sequence: `None` when the sequence is empty.
pub open spec fn spec_bbox_of(ps: Seq<Point3>) -> Option<BoundingBox3d> {
    if ps.len() == 0 {
        Option::None
    } else {
        Option::Some(spec_insert_all(spec_from_point(ps[0]), ps.skip(1)))
    }
}

/// Folding one more point on the right lands on one more [`spec_insert`].
pub proof fn lemma_insert_all_push(b: BoundingBox3d, ps: Seq<Point3>, p: Point3)
    ensures
        spec_insert_all(b, ps.push(p)) == spec_insert(spec_insert_all(b, ps), p),
    decreases ps.len(),
{
    if ps.len() == 0 {
        assert(ps.push(p)[0] == p);
        assert(ps.push(p).skip(1) =~= Seq::<Point3>::empty());
        assert(spec_insert_all(spec_insert(b, p), Seq::<Point3>::empty()) == spec_insert(b, p));
        assert(spec_insert_all(b, ps.push(p)) == spec_insert_all(
            spec_insert(b, p),
            ps.push(p).skip(1),
        ));
    } else {
        assert(ps.push(p)[0] == ps[0]);
        assert(ps.push(p).skip(1) =~= ps.skip(1).push(p));
        lemma_insert_all_push(spec_insert(b, ps[0]), ps.skip(1), p);
        assert(spec_insert_all(b, ps.push(p)) == spec_insert_all(
            spec_insert(b, ps[0]),
            ps.skip(1).push(p),
        ));
    }
}

impl BoundingBox3d {
    /// Returns the minimum corner.
    pub fn min(&self) -> (r: Point3)
        ensures
            r == self.min,
    {
        self.min
    }

    /// Returns the maximum corner.
    pub fn max(&self) -> (r: Point3)
        ensures
            r == self.max,
    {
        self.max
    }

    /// Extends the bounding box to contain the given point.
    pub fn insert(&self, p: Point3) -> (r: BoundingBox3d)
        ensures
            r == spec_insert(*self, p),
    {
        BoundingBox3d {
            min: Point3 {
                x: if self.min.x <= p.x {
                    self.min.x
                } else {
                    p.x
                },
                y: if self.min.y <= p.y {
                    self.min.y
                } else {
                    p.y
                },
                z: if self.min.z <= p.z {
                    self.min.z
                } else {
                    p.z
                },
            },
            max: Point3 {
                x: if self.max.x <= p.x {
                    p.x
                } else {
                    self.max.x
                },
                y: if self.max.y <= p.y {
                    p.y
                } else {
                    self.max.y
                },
                z: if self.max.z <= p.z {
                    p.z
                } else {
                    self.max.z
                },
            },
        }
    }

    /// Extends the bounding box to contain every given point.
    pub fn insert_extend(&self, ps: &Vec<Point3>) -> (r: BoundingBox3d)
        ensures
            r == spec_insert_all(*self, ps@),
    {
        let mut acc = *self;
        let mut i: usize = 0;
        while i < ps.len()
            invariant
                i <= ps@.len(),
                acc == spec_insert_all(*self, ps@.subrange(0, i as int)),
            decreases ps@.len() - i,
        {
            proof {
                lemma_insert_all_push(*self, ps@.subrange(0, i as int), ps@[i as int]);
                assert(ps@.subrange(0, i as int).push(ps@[i as int]) =~= ps@.subrange(
                    0,
                    i as int + 1,
                ));
            }
            acc = acc.insert(ps[i]);
            i = i + 1;
        }
        proof {
            assert(ps@.subrange(0, ps@.len() as int) =~= ps@);
        }
        acc
    }

    /// Merges the bounding boxes.
    pub fn union(&self, o: &BoundingBox3d) -> (r: BoundingBox3d)
        ensures
            r == spec_union(*self, *o),
    {
        BoundingBox3d {
            min: Point3 {
                x: if self.min.x <= o.min.x {
                    self.min.x
                } else {
                    o.min.x
                },
                y: if self.min.y <= o.min.y {
                    self.min.y
                } else {
                    o.min.y
                },
                z: if self.min.z <= o.min.z {
                    self.min.z
                } else {
                    o.min.z
                },
            },
            max: Point3 {
                x: if self.max.x <= o.max.x {
                    o.max.x
                } else {
                    self.max.x
                },
                y: if self.max.y <= o.max.y {
                    o.max.y
                } else {
                    self.max.y
                },
                z: if self.max.z <= o.max.z {
                    o.max.z
                } else {
                    self.max.z
                },
            },
        }
    }

    /// Builds the degenerate box holding exactly one point.
    pub fn from_point(p: Point3) -> (r: BoundingBox3d)
        ensures
            r == spec_from_point(p),
    {
        BoundingBox3d { min: p, max: p }
    }

    /// Merges the bounding box with every given box.
    pub fn union_extend(&self, os: &Vec<BoundingBox3d>) -> (r: BoundingBox3d)
        ensures
            r == spec_union_all(*self, os@),
    {
        let mut acc = *self;
        let mut i: usize = 0;
        while i < os.len()
            invariant
                i <= os@.len(),
                acc == spec_union_all(*self, os@.subrange(0, i as int)),
            decreases os@.len() - i,
        {
            proof {
                assert(os@.subrange(0, i as int + 1).drop_last() =~= os@.subrange(0, i as int));
                assert(os@.subrange(0, i as int + 1).last() == os@[i as int]);
            }
            acc = acc.union(&os[i]);
            i = i + 1;
        }
        proof {
            assert(os@.subrange(0, os@.len() as int) =~= os@);
        }
        acc
    }
}

/// `b` merged with every box of `os`, in order.
pub open spec fn spec_union_all(b: BoundingBox3d, os: Seq<BoundingBox3d>) -> BoundingBox3d
    decreases os.len(),
{
    if os.len() == 0 {
        b
    } else {
        spec_union(spec_union_all(b, os.drop_last()), os.last())
    }
}

/// The union of two possibly empty bounds.
pub open spec fn spec_union_opt(a: Option<BoundingBox3d>, b: Option<BoundingBox3d>) -> Option<
    BoundingBox3d,
> {
    match (a, b) {
        (Option::Some(x), Option::Some(y)) => Option::Some(spec_union(x, y)),
        (Option::Some(x), Option::None) => Option::Some(x),
        (Option::None, Option::Some(y)) => Option::Some(y),
        (Option::None, Option::None) => Option::None,
    }
}

/// `b` merged with every possibly empty bound of `os`, in order.
pub open spec fn spec_union_all_opt(
    b: Option<BoundingBox3d>,
    os: Seq<OptionalBoundingBox3d>,
) -> Option<BoundingBox3d>
    decreases os.len(),
{
    if os.len() == 0 {
        b
    } else {
        spec_union_opt(spec_union_all_opt(b, os.drop_last()), os.last().spec_bbox())
    }
}

/// A 3D bounding box that may be empty.
#[derive(Debug, Clone, Copy, PartialEq, Eq, Structural)]
pub struct OptionalBoundingBox3d {
    /// The box, absent when no point has been inserted.
    pub bbox: Option<BoundingBox3d>,
}

impl OptionalBoundingBox3d {
    /// The contained box, for contracts.
    pub open spec fn spec_bbox(self) -> Option<BoundingBox3d> {
        self.bbox
    }

    /// Creates an empty bounding box.
    pub fn new() -> (r: OptionalBoundingBox3d)
        ensures
            r.spec_bbox() is None,
    {
        OptionalBoundingBox3d { bbox: Option::None }
    }

    /// Returns the bounding box, `None` when empty.
    pub fn bounding_box(&self) -> (r: Option<BoundingBox3d>)
        ensures
            r == self.spec_bbox(),
    {
        self.bbox
    }

    /// Extends the bounding box to contain the given point.
    pub fn insert(&self, p: Point3) -> (r: OptionalBoundingBox3d)
        ensures
            r.spec_bbox() == match self.spec_bbox() {
                Option::Some(b) => Option::Some(spec_insert(b, p)),
                Option::None => Option::Some(spec_from_point(p)),
            },
    {
        match &self.bbox {
            Option::Some(b) => OptionalBoundingBox3d { bbox: Option::Some(b.insert(p)) },
            Option::None => OptionalBoundingBox3d {
                bbox: Option::Some(BoundingBox3d::from_point(p)),
            },
        }
    }

    /// Extends the bounding box to contain every given point.
    pub fn insert_extend(&self, ps: &Vec<Point3>) -> (r: OptionalBoundingBox3d)
        ensures
            r.spec_bbox() == match self.spec_bbox() {
                Option::Some(b) => Option::Some(spec_insert_all(b, ps@)),
                Option::None => spec_bbox_of(ps@),
            },
    {
        let mut acc = *self;
        let mut i: usize = 0;
        while i < ps.len()
            invariant
                i <= ps@.len(),
                acc.spec_bbox() == match self.spec_bbox() {
                    Option::Some(b) => Option::Some(spec_insert_all(b, ps@.subrange(0, i as int))),
                    Option::None => spec_bbox_of(ps@.subrange(0, i as int)),
                },
            decreases ps@.len() - i,
        {
            proof {
                let pre = ps@.subrange(0, i as int);
                let post = ps@.subrange(0, i as int + 1);
                assert(pre.push(ps@[i as int]) =~= post);
                match self.spec_bbox() {
                    Option::Some(b) => {
                        lemma_insert_all_push(b, pre, ps@[i as int]);
                    },
                    Option::None => {
                        if pre.len() > 0 {
                            lemma_insert_all_push(
                                spec_from_point(pre[0]),
                                pre.skip(1),
                                ps@[i as int],
                            );
                            assert(pre.skip(1).push(ps@[i as int]) =~= post.skip(1));
                        } else {
                            assert(post.skip(1) =~= Seq::<Point3>::empty());
                        }
                    },
                }
            }
            acc = acc.insert(ps[i]);
            i = i + 1;
        }
        proof {
            assert(ps@.subrange(0, ps@.len() as int) =~= ps@);
        }
        acc
    }

    /// Merges the bounding boxes.
    pub fn union(&self, o: &OptionalBoundingBox3d) -> (r: OptionalBoundingBox3d)
        ensures
            r.spec_bbox() == match (self.spec_bbox(), o.spec_bbox()) {
                (Option::Some(a), Option::Some(b)) => Option::Some(spec_union(a, b)),
                (Option::Some(a), Option::None) => Option::Some(a),
                (Option::None, Option::Some(b)) => Option::Some(b),
                (Option::None, Option::None) => Option::None::<BoundingBox3d>,
            },
    {
        match (&self.bbox, &o.bbox) {
            (Option::Some(a), Option::Some(b)) => OptionalBoundingBox3d {
                bbox: Option::Some(a.union(b)),
            },
            (Option::Some(a), Option::None) => OptionalBoundingBox3d {
                bbox: Option::Some(*a),
            },
            (Option::None, Option::Some(b)) => OptionalBoundingBox3d {
                bbox: Option::Some(*b),
            },
            (Option::None, Option::None) => OptionalBoundingBox3d { bbox: Option::None },
        }
    }

    /// Builds the bounding box of a whole point list.
    pub fn from_points(ps: &Vec<Point3>) -> (r: OptionalBoundingBox3d)
        ensures
            r.spec_bbox() == spec_bbox_of(ps@),
    {
        let empty = OptionalBoundingBox3d::new();
        empty.insert_extend(ps)
    }

    /// Merges the bounding box with every given one.
    pub fn union_extend(&self, os: &Vec<OptionalBoundingBox3d>) -> (r: OptionalBoundingBox3d)
        ensures
            r.spec_bbox() == spec_union_all_opt(self.spec_bbox(), os@),
    {
        let mut acc = *self;
        let mut i: usize = 0;
        while i < os.len()
            invariant
                i <= os@.len(),
                acc.spec_bbox() == spec_union_all_opt(self.spec_bbox(), os@.subrange(0, i as int)),
            decreases os@.len() - i,
        {
            proof {
                assert(os@.subrange(0, i as int + 1).drop_last() =~= os@.subrange(0, i as int));
                assert(os@.subrange(0, i as int + 1).last() == os@[i as int]);
            }
            acc = acc.union(&os[i]);
            i = i + 1;
        }
        proof {
            assert(os@.subrange(0, os@.len() as int) =~= os@);
        }
        acc
    }
}

} // verus!
