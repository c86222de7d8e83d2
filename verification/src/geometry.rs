//! Integer geometry: points, sizes, rectangles and displacements.
//!
//! Every coordinate is an `i32`. Sums and differences of coordinates are
//! computed exactly and then brought back into the `i32` range by
//! [`clamp_i32`], so no operation of this module can overflow or panic.
//! Predicates such as [`Rectangle::contains`] are decided on the exact
//! values.

use vstd::prelude::*;
use vstd::std_specs::ops::AddSpecImpl;
use vstd::std_specs::ops::SubSpecImpl;

verus! {

/// The `i32` nearest to `v`.
pub open spec fn clamp_i32(v: int) -> i32 {
    if v < i32::MIN {
        i32::MIN
    } else if v > i32::MAX {
        i32::MAX
    } else {
        v as i32
    }
}

/// `v` divided by two, rounded towards zero.
pub open spec fn half(v: int) -> int {
    if v >= 0 {
        v / 2
    } else {
        -((-v) / 2)
    }
}

/// Brings an exact value back into the `i32` range.
pub fn saturate(v: i64) -> (r: i32)
    ensures
        r == clamp_i32(v as int),
{
    if v < i32::MIN as i64 {
        i32::MIN
    } else if v > i32::MAX as i64 {
        i32::MAX
    } else {
        v as i32
    }
}

/// `a + b`, saturating at the bounds of `i32`.
pub fn sat_add(a: i32, b: i32) -> (r: i32)
    ensures
        r == clamp_i32(a + b),
{
    saturate(a as i64 + b as i64)
}

/// `a - b`, saturating at the bounds of `i32`.
pub fn sat_sub(a: i32, b: i32) -> (r: i32)
    ensures
        r == clamp_i32(a - b),
{
    saturate(a as i64 - b as i64)
}

/// Half of `v`, rounded towards zero.
pub fn halve(v: i32) -> (r: i32)
    ensures
        r == half(v as int),
{
    v / 2
}

/// A position on the plane.
#[derive(Debug, PartialEq, Eq, Structural, Clone, Copy)]
pub struct Point {
    pub x: i32,
    pub y: i32,
}

/// The difference between two points.
#[derive(Debug, PartialEq, Eq, Structural, Clone, Copy)]
pub struct Displacement {
    pub dx: i32,
    pub dy: i32,
}

/// The extent of a rectangle.
#[derive(Debug, PartialEq, Eq, Structural, Clone, Copy)]
pub struct Size {
    pub width: i32,
    pub height: i32,
}

/// An axis-aligned rectangle, given by its top-left corner and its size.
#[derive(Debug, PartialEq, Eq, Structural, Clone, Copy)]
pub struct Rectangle {
    pub top_left: Point,
    pub size: Size,
}

impl Point {
    pub fn new(x: i32, y: i32) -> (p: Point)
        ensures
            p == (Point { x, y }),
    {
        Point { x, y }
    }

    pub fn x(&self) -> (x: i32)
        ensures
            x == self.x,
    {
        self.x
    }

    pub fn y(&self) -> (y: i32)
        ensures
            y == self.y,
    {
        self.y
    }

    /// The point reached from `self` by `by`.
    pub open spec fn spec_translate(self, by: Displacement) -> Point {
        Point { x: clamp_i32(self.x + by.dx), y: clamp_i32(self.y + by.dy) }
    }

    /// The displacement that leads from `other` to `self`.
    pub open spec fn spec_minus(self, other: Point) -> Displacement {
        Displacement { dx: clamp_i32(self.x - other.x), dy: clamp_i32(self.y - other.y) }
    }

    /// Moves the point by `by`.
    pub fn translate(&self, by: Displacement) -> (p: Point)
        ensures
            p == self.spec_translate(by),
    {
        Point { x: sat_add(self.x, by.dx), y: sat_add(self.y, by.dy) }
    }
}

impl core::ops::Sub<Point> for Point {
    type Output = Displacement;

    fn sub(self, other: Point) -> (d: Displacement) {
        Displacement { dx: sat_sub(self.x, other.x), dy: sat_sub(self.y, other.y) }
    }
}

impl SubSpecImpl<Point> for Point {
    open spec fn obeys_sub_spec() -> bool {
        true
    }

    open spec fn sub_req(self, other: Point) -> bool {
        true
    }

    open spec fn sub_spec(self, other: Point) -> Displacement {
        self.spec_minus(other)
    }
}

impl Displacement {
    pub fn new(dx: i32, dy: i32) -> (d: Displacement)
        ensures
            d == (Displacement { dx, dy }),
    {
        Displacement { dx, dy }
    }
}

impl Size {
    pub fn new(width: i32, height: i32) -> (s: Size)
        ensures
            s == (Size { width, height }),
    {
        Size { width, height }
    }

    pub fn width(&self) -> (w: i32)
        ensures
            w == self.width,
    {
        self.width
    }

    pub fn height(&self) -> (h: i32)
        ensures
            h == self.height,
    {
        self.height
    }

    /// The same size with another width.
    pub fn with_width(&self, width: i32) -> (s: Size)
        ensures
            s == (Size { width, height: self.height }),
    {
        Size { width, height: self.height }
    }

    /// The same size with another height.
    pub fn with_height(&self, height: i32) -> (s: Size)
        ensures
            s == (Size { width: self.width, height }),
    {
        Size { width: self.width, height }
    }
}

impl Rectangle {
    /// The exact x coordinate just past the right edge.
    pub open spec fn exact_right(self) -> int {
        self.top_left.x + self.size.width
    }

    /// The exact y coordinate just past the bottom edge.
    pub open spec fn exact_bottom(self) -> int {
        self.top_left.y + self.size.height
    }

    /// The exact x coordinate of the vertical centre line.
    pub open spec fn exact_center_x(self) -> int {
        self.top_left.x + half(self.size.width as int)
    }

    /// Whether `point` lies inside: both axes are half-open intervals.
    pub open spec fn spec_contains(self, point: Point) -> bool {
        &&& self.top_left.x <= point.x < self.exact_right()
        &&& self.top_left.y <= point.y < self.exact_bottom()
    }

    /// The rectangle with its top-left corner moved by `by`.
    pub open spec fn spec_translate(self, by: Displacement) -> Rectangle {
        Rectangle { top_left: self.top_left.spec_translate(by), size: self.size }
    }

    pub fn new(top_left: Point, size: Size) -> (r: Rectangle)
        ensures
            r == (Rectangle { top_left, size }),
    {
        Rectangle { top_left, size }
    }

    pub fn left(&self) -> (x: i32)
        ensures
            x == self.top_left.x,
    {
        self.top_left.x
    }

    pub fn top(&self) -> (y: i32)
        ensures
            y == self.top_left.y,
    {
        self.top_left.y
    }

    /// The x coordinate just past the right edge, brought into range.
    pub fn right(&self) -> (x: i32)
        ensures
            x == clamp_i32(self.exact_right()),
    {
        self.bottom_right().x
    }

    /// The y coordinate just past the bottom edge, brought into range.
    pub fn bottom(&self) -> (y: i32)
        ensures
            y == clamp_i32(self.exact_bottom()),
    {
        self.bottom_right().y
    }

    pub fn width(&self) -> (w: i32)
        ensures
            w == self.size.width,
    {
        self.size.width
    }

    pub fn height(&self) -> (h: i32)
        ensures
            h == self.size.height,
    {
        self.size.height
    }

    /// The corner just past the right and the bottom edge, brought into
    /// range.
    pub fn bottom_right(&self) -> (p: Point)
        ensures
            p.x == clamp_i32(self.exact_right()),
            p.y == clamp_i32(self.exact_bottom()),
    {
        Point {
            x: sat_add(self.left(), self.width()),
            y: sat_add(self.top(), self.height()),
        }
    }

    /// The x coordinate of the vertical centre line.
    pub fn center_x(&self) -> (x: i32)
        ensures
            x == clamp_i32(self.exact_center_x()),
    {
        sat_add(self.left(), halve(self.width()))
    }

    /// Whether `point` lies inside; the right and the bottom edge are
    /// outside.
    pub fn contains(&self, point: &Point) -> (inside: bool)
        ensures
            inside == self.spec_contains(*point),
    {
        let right: i64 = self.top_left.x as i64 + self.size.width as i64;
        let bottom: i64 = self.top_left.y as i64 + self.size.height as i64;
        self.left() <= point.x && right > point.x() as i64 && self.top() <= point.y && bottom
            > point.y as i64
    }

    /// Moves the rectangle by `by`, keeping its size.
    pub fn translate(&self, by: Displacement) -> (r: Rectangle)
        ensures
            r == self.spec_translate(by),
    {
        Rectangle { top_left: self.top_left.translate(by), size: self.size }
    }
}

impl core::ops::Add<Displacement> for Rectangle {
    type Output = Rectangle;

    fn add(self, by: Displacement) -> (r: Rectangle) {
        self.translate(by)
    }
}

impl AddSpecImpl<Displacement> for Rectangle {
    open spec fn obeys_add_spec() -> bool {
        true
    }

    open spec fn add_req(self, by: Displacement) -> bool {
        true
    }

    open spec fn add_spec(self, by: Displacement) -> Rectangle {
        self.spec_translate(by)
    }
}

} // verus!
