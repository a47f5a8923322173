//! Points, sizes and rectangles, with the bounds-intersection that every
//! write operation applies before touching pixel memory.

use vstd::prelude::*;

verus! {

/// A point with signed integer coordinates.
#[derive(Clone, Copy, Debug, PartialEq, Eq, Structural)]
pub struct Point {
    pub x: i32,
    pub y: i32,
}

impl Point {
    /// Build a point.
    pub fn new(x: i32, y: i32) -> (p: Point)
        ensures
            p == (Point { x, y }),
    {
        Point { x, y }
    }
}

/// An unsigned extent in pixels.
#[derive(Clone, Copy, Debug, PartialEq, Eq, Structural)]
pub struct Size {
    pub width: u32,
    pub height: u32,
}

impl Size {
    /// Build a size.
    pub fn new(width: u32, height: u32) -> (s: Size)
        ensures
            s == (Size { width, height }),
    {
        Size { width, height }
    }
}

/// An axis-aligned rectangle: top-left corner plus extent. It may lie wholly
/// or partially outside a framebuffer's bounds; writes clip it first.
#[derive(Clone, Copy, Debug, PartialEq, Eq, Structural)]
pub struct Rectangle {
    pub top_left: Point,
    pub size: Size,
}

impl Rectangle {
    /// Build a rectangle.
    pub fn new(top_left: Point, size: Size) -> (r: Rectangle)
        ensures
            r == (Rectangle { top_left, size }),
    {
        Rectangle { top_left, size }
    }

    /// Whether the point `(x, y)` lies inside the rectangle.
    pub open spec fn contains(self, x: int, y: int) -> bool {
        self.top_left.x <= x < self.top_left.x + self.size.width
            && self.top_left.y <= y < self.top_left.y + self.size.height
    }

    /// The number of points the rectangle covers.
    pub open spec fn area_spec(self) -> int {
        self.size.width * self.size.height
    }

    /// Whether the rectangle covers no point.
    pub open spec fn is_empty_spec(self) -> bool {
        self.size.width == 0 || self.size.height == 0
    }

    /// Whether the rectangle covers no point.
    pub fn is_empty(&self) -> (e: bool)
        ensures
            e == self.is_empty_spec(),
            e ==> forall|x: int, y: int| !self.contains(x, y),
    {
        self.size.width == 0 || self.size.height == 0
    }

    /// The intersection of two rectangles: exactly the points that lie in
    /// both. An empty intersection comes out with zero extent.
    pub fn intersection(&self, other: &Rectangle) -> (r: Rectangle)
        ensures
            forall|x: int, y: int|
                #[trigger] r.contains(x, y) <==> self.contains(x, y) && other.contains(x, y),
            r.top_left.x >= self.top_left.x,
            r.top_left.y >= self.top_left.y,
            r.top_left.x >= other.top_left.x,
            r.top_left.y >= other.top_left.y,
            !r.is_empty_spec() ==> r.top_left.x + r.size.width <= self.top_left.x
                + self.size.width,
            !r.is_empty_spec() ==> r.top_left.y + r.size.height <= self.top_left.y
                + self.size.height,
            !r.is_empty_spec() ==> r.top_left.x + r.size.width <= other.top_left.x
                + other.size.width,
            !r.is_empty_spec() ==> r.top_left.y + r.size.height <= other.top_left.y
                + other.size.height,
    {
        let ax0: i64 = self.top_left.x as i64;
        let ay0: i64 = self.top_left.y as i64;
        let ax1: i64 = ax0 + self.size.width as i64;
        let ay1: i64 = ay0 + self.size.height as i64;
        let bx0: i64 = other.top_left.x as i64;
        let by0: i64 = other.top_left.y as i64;
        let bx1: i64 = bx0 + other.size.width as i64;
        let by1: i64 = by0 + other.size.height as i64;
        let x0: i64 = if ax0 >= bx0 { ax0 } else { bx0 };
        let y0: i64 = if ay0 >= by0 { ay0 } else { by0 };
        let x1: i64 = if ax1 <= bx1 { ax1 } else { bx1 };
        let y1: i64 = if ay1 <= by1 { ay1 } else { by1 };
        if x0 < x1 && y0 < y1 {
            Rectangle {
                top_left: Point { x: x0 as i32, y: y0 as i32 },
                size: Size { width: (x1 - x0) as u32, height: (y1 - y0) as u32 },
            }
        } else {
            Rectangle {
                top_left: Point { x: x0 as i32, y: y0 as i32 },
                size: Size { width: 0, height: 0 },
            }
        }
    }
}

} // verus!
