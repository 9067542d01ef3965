//! Lengths in application units and the few geometric shapes built from them.

use vstd::prelude::*;

verus! {

/// A length in application units (sixtieths of a pixel).
#[derive(Clone, Copy, Debug, PartialEq, Eq, Structural)]
pub struct Au(pub i32);

#[derive(Clone, Copy, Debug, PartialEq, Eq, Structural)]
pub struct Point2D {
    pub x: Au,
    pub y: Au,
}

#[derive(Clone, Copy, Debug, PartialEq, Eq, Structural)]
pub struct Size2D {
    pub width: Au,
    pub height: Au,
}

#[derive(Clone, Copy, Debug, PartialEq, Eq, Structural)]
pub struct Rect {
    pub origin: Point2D,
    pub size: Size2D,
}

/// The nearest whole pixel to a length of `a` application units, halves
/// rounded away from zero.
pub open spec fn nearest_px(a: int) -> int {
    if a >= 0 {
        (a + 30) / 60
    } else {
        -((-a + 30) / 60)
    }
}

/// Rounds a length in application units to the nearest device pixel.
pub fn to_nearest_px(a: i128) -> (r: i128)
    requires
        a < i128::MAX - 30,
        a > i128::MIN + 30,
    ensures
        r == nearest_px(a as int),
{
    if a >= 0 {
        (a + 30) / 60
    } else {
        -((-a + 30) / 60)
    }
}

impl Point2D {
    pub fn new(x: Au, y: Au) -> (r: Point2D)
        ensures
            r == (Point2D { x, y }),
    {
        Point2D { x, y }
    }

    pub fn zero() -> (r: Point2D)
        ensures
            r == (Point2D { x: Au(0), y: Au(0) }),
    {
        Point2D { x: Au(0), y: Au(0) }
    }
}

} // verus!
