//! Fixed-point geometric value types.
//!
//! Coordinates are plain integers; a caller that works in real units picks a
//! scale (say, 1024 units per metre) and converts at the boundary. Keeping
//! every coordinate within [`MAX_COORD`] lets the triangulator evaluate all of
//! its sign tests exactly, with no overflow.

use vstd::prelude::*;

verus! {

/// Largest coordinate magnitude accepted by the geometry pipeline (2^29).
pub const MAX_COORD: i64 = 0x2000_0000;

/// Largest magnitude accepted for a shading colour channel or factor (2^32).
pub const MAX_COLOR: i64 = 0x1_0000_0000;

/// Fixed-point unit for shading factors: a factor of `FP_ONE` means 1.0.
pub const FP_ONE: i64 = 0x1_0000;

/// A 3D position.
#[derive(Debug, Clone, Copy, PartialEq, Eq, Structural)]
pub struct Point3 {
    /// X coordinate.
    pub x: i64,
    /// Y coordinate.
    pub y: i64,
    /// Z coordinate.
    pub z: i64,
}

impl Point3 {
    /// All coordinates within the accepted range.
    pub open spec fn wf(self) -> bool {
        &&& -MAX_COORD <= self.x <= MAX_COORD
        &&& -MAX_COORD <= self.y <= MAX_COORD
        &&& -MAX_COORD <= self.z <= MAX_COORD
    }

    /// Builds a point from its coordinates.
    pub fn new(x: i64, y: i64, z: i64) -> (r: Point3)
        ensures
            r == (Point3 { x, y, z }),
    {
        Point3 { x, y, z }
    }
}

/// A 3D direction.
#[derive(Debug, Clone, Copy, PartialEq, Eq, Structural)]
pub struct Vector3 {
    /// X component.
    pub x: i64,
    /// Y component.
    pub y: i64,
    /// Z component.
    pub z: i64,
}

impl Vector3 {
    /// All components within the accepted range.
    pub open spec fn wf(self) -> bool {
        &&& -MAX_COORD <= self.x <= MAX_COORD
        &&& -MAX_COORD <= self.y <= MAX_COORD
        &&& -MAX_COORD <= self.z <= MAX_COORD
    }

    /// Builds a vector from its components.
    pub fn new(x: i64, y: i64, z: i64) -> (r: Vector3)
        ensures
            r == (Vector3 { x, y, z }),
    {
        Vector3 { x, y, z }
    }
}

/// A 2D texture coordinate.
#[derive(Debug, Clone, Copy, PartialEq, Eq, Structural)]
pub struct Point2 {
    /// U coordinate.
    pub x: i64,
    /// V coordinate.
    pub y: i64,
}

impl Point2 {
    /// Both coordinates within the accepted range.
    pub open spec fn wf(self) -> bool {
        &&& -MAX_COORD <= self.x <= MAX_COORD
        &&& -MAX_COORD <= self.y <= MAX_COORD
    }

    /// Builds a texture coordinate pair.
    pub fn new(x: i64, y: i64) -> (r: Point2)
        ensures
            r == (Point2 { x, y }),
    {
        Point2 { x, y }
    }
}

/// An RGB colour in fixed point: `FP_ONE` per channel means full intensity.
#[derive(Debug, Clone, Copy, PartialEq, Eq, Structural)]
pub struct Rgb {
    /// Red channel.
    pub r: i64,
    /// Green channel.
    pub g: i64,
    /// Blue channel.
    pub b: i64,
}

impl Rgb {
    /// All channels non-negative and within the accepted range.
    pub open spec fn wf(self) -> bool {
        &&& 0 <= self.r <= MAX_COLOR
        &&& 0 <= self.g <= MAX_COLOR
        &&& 0 <= self.b <= MAX_COLOR
    }

    /// Builds a colour from its channels.
    pub fn new(r: i64, g: i64, b: i64) -> (c: Rgb)
        ensures
            c == (Rgb { r, g, b }),
    {
        Rgb { r, g, b }
    }

    /// Scales every channel by a fixed-point factor, as `channel * factor /
    /// FP_ONE` in exact integer arithmetic.
    pub fn scaled(self, factor: i64) -> (c: Rgb)
        requires
            self.wf(),
            0 <= factor <= MAX_COLOR,
        ensures
            c == spec_scaled(self, factor),
    {
        let r = scale_channel(self.r, factor);
        let g = scale_channel(self.g, factor);
        let b = scale_channel(self.b, factor);
        Rgb { r, g, b }
    }
}

/// A colour with every channel scaled by a fixed-point factor.
pub open spec fn spec_scaled(c: Rgb, factor: i64) -> Rgb {
    Rgb {
        r: (c.r * factor / (FP_ONE as int)) as i64,
        g: (c.g * factor / (FP_ONE as int)) as i64,
        b: (c.b * factor / (FP_ONE as int)) as i64,
    }
}

/// One channel of [`Rgb::scaled`]: `v * factor / FP_ONE` without overflow.
fn scale_channel(v: i64, factor: i64) -> (r: i64)
    requires
        0 <= v <= MAX_COLOR,
        0 <= factor <= MAX_COLOR,
    ensures
        r == v * factor / FP_ONE as int,
{
    proof {
        assert(0 <= (v as int) * (factor as int) <= (MAX_COLOR as int) * (MAX_COLOR as int))
            by (nonlinear_arith)
            requires
                0 <= v <= MAX_COLOR,
                0 <= factor <= MAX_COLOR,
        ;
        assert((v as int) * (factor as int) / (FP_ONE as int) <= (v as int) * (factor as int));
    }
    let wide: i128 = (v as i128) * (factor as i128);
    (wide / (FP_ONE as i128)) as i64
}

} // verus!
