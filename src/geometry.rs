//! Points, sizes and rectangles in pixel coordinates.
use vstd::prelude::*;

verus! {

/// Clamps a mathematical integer into the range of `i32`; coordinates that a
/// computation would push past the representable range stop at its edge.
pub open spec fn clamp_i32(v: int) -> i32 {
    if v < i32::MIN {
        i32::MIN
    } else if v > i32::MAX {
        i32::MAX
    } else {
        v as i32
    }
}

/// `v` clamped into the range of `i32`.
pub fn clamp_coord(v: i128) -> (r: i32)
    ensures
        r == clamp_i32(v as int),
{
    if v < i32::MIN as i128 {
        i32::MIN
    } else if v > i32::MAX as i128 {
        i32::MAX
    } else {
        v as i32
    }
}

/// A pixel position.
#[derive(Copy, Clone, Eq, PartialEq, Structural, Hash, Debug)]
pub struct Point {
    pub x: i32,
    pub y: i32,
}

/// An extent in pixels on both axes.
#[derive(Copy, Clone, Eq, PartialEq, Structural, Hash, Debug)]
pub struct Size {
    pub width: u32,
    pub height: u32,
}

/// An axis-aligned rectangle given by its top left corner and its size.
#[derive(Copy, Clone, Eq, PartialEq, Structural, Hash, Debug)]
pub struct Rectangle {
    pub top_left: Point,
    pub size: Size,
}

/// A point together with the color to paint it in.
#[derive(Copy, Clone, Debug)]
pub struct Pixel<C> {
    pub point: Point,
    pub color: C,
}

/// The point `(x, y)` with both coordinates clamped into `i32`.
pub open spec fn point_at(x: int, y: int) -> Point {
    Point { x: clamp_i32(x), y: clamp_i32(y) }
}

impl Point {
    /// The point `(x, y)`.
    pub fn new(x: i32, y: i32) -> (r: Point)
        ensures
            r.x == x,
            r.y == y,
    {
        Point { x, y }
    }

    /// The point moved by `(dx, dy)`, clamped into the coordinate range.
    pub fn offset(self, dx: i64, dy: i64) -> (r: Point)
        ensures
            r == point_at(self.x + dx, self.y + dy),
    {
        Point {
            x: clamp_coord(self.x as i128 + dx as i128),
            y: clamp_coord(self.y as i128 + dy as i128),
        }
    }
}

impl Size {
    /// The extent `width` x `height`.
    pub fn new(width: u32, height: u32) -> (r: Size)
        ensures
            r.width == width,
            r.height == height,
    {
        Size { width, height }
    }
}

impl Rectangle {
    /// The rectangle at `top_left` of extent `size`.
    pub fn new(top_left: Point, size: Size) -> (r: Rectangle)
        ensures
            r.top_left == top_left,
            r.size == size,
    {
        Rectangle { top_left, size }
    }
}

} // verus!
