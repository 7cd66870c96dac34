//! Points, sizes, rectangles and colours on an integer pixel grid.

use vstd::prelude::*;

verus! {

/// A position on the pixel grid. `x` grows to the right, `y` downwards.
#[derive(Clone, Copy, Debug, PartialEq, Eq, Structural)]
pub struct Point {
    pub x: i32,
    pub y: i32,
}

/// The width and height of a region, in pixels.
#[derive(Clone, Copy, Debug, PartialEq, Eq, Structural)]
pub struct Size {
    pub width: u32,
    pub height: u32,
}

/// A colour with eight bits for each of red, green and blue.
#[derive(Clone, Copy, Debug, PartialEq, Eq, Structural)]
pub struct Rgb888 {
    pub r: u8,
    pub g: u8,
    pub b: u8,
}

/// One coloured point.
#[derive(Clone, Copy, Debug, PartialEq, Eq, Structural)]
pub struct Pixel {
    pub point: Point,
    pub color: Rgb888,
}

/// The region of `size` whose top left corner is `top_left`.
#[derive(Clone, Copy, Debug, PartialEq, Eq, Structural)]
pub struct Rectangle {
    pub top_left: Point,
    pub size: Size,
}

impl Point {
    pub fn new(x: i32, y: i32) -> (p: Point)
        ensures
            p == (Point { x, y }),
    {
        Point { x, y }
    }

    /// The origin of the grid.
    pub fn zero() -> (p: Point)
        ensures
            p == (Point { x: 0, y: 0 }),
    {
        Point { x: 0, y: 0 }
    }

    /// Whether moving `self` by `by` stays within the coordinates a `Point` can hold.
    pub open spec fn can_shift(self, by: Point) -> bool {
        &&& i32::MIN <= self.x + by.x <= i32::MAX
        &&& i32::MIN <= self.y + by.y <= i32::MAX
    }

    /// `self` moved by `by`, or `None` where a coordinate would leave the grid.
    pub fn shift(self, by: Point) -> (moved: Option<Point>)
        ensures
            moved is Some <==> self.can_shift(by),
            moved matches Some(p) ==> p.x == self.x + by.x && p.y == self.y + by.y,
    {
        match (self.x.checked_add(by.x), self.y.checked_add(by.y)) {
            (Some(x), Some(y)) => Some(Point { x, y }),
            _ => None,
        }
    }
}

impl Size {
    pub fn new(width: u32, height: u32) -> (s: Size)
        ensures
            s == (Size { width, height }),
    {
        Size { width, height }
    }

    /// Whether `(x, y)` lies in the region of this size that starts at the origin.
    pub open spec fn holds(self, x: int, y: int) -> bool {
        0 <= x < self.width && 0 <= y < self.height
    }
}

impl Rgb888 {
    pub fn new(r: u8, g: u8, b: u8) -> (c: Rgb888)
        ensures
            c == (Rgb888 { r, g, b }),
    {
        Rgb888 { r, g, b }
    }

    pub open spec fn spec_black() -> Rgb888 {
        Rgb888 { r: 0, g: 0, b: 0 }
    }

    /// The colour of an unlit pixel.
    #[verifier::when_used_as_spec(spec_black)]
    pub fn black() -> (c: Rgb888)
        ensures
            c == Self::spec_black(),
    {
        Rgb888 { r: 0, g: 0, b: 0 }
    }
}

impl Pixel {
    pub fn new(point: Point, color: Rgb888) -> (p: Pixel)
        ensures
            p == (Pixel { point, color }),
    {
        Pixel { point, color }
    }
}

impl Rectangle {
    pub fn new(top_left: Point, size: Size) -> (r: Rectangle)
        ensures
            r == (Rectangle { top_left, size }),
    {
        Rectangle { top_left, size }
    }

    /// The rectangle of `size` at the origin.
    pub open spec fn spec_at_origin(size: Size) -> Rectangle {
        Rectangle { top_left: Point { x: 0, y: 0 }, size }
    }

    #[verifier::when_used_as_spec(spec_at_origin)]
    pub fn at_origin(size: Size) -> (r: Rectangle)
        ensures
            r == Self::spec_at_origin(size),
    {
        Rectangle { top_left: Point { x: 0, y: 0 }, size }
    }

    /// Whether `(x, y)` lies inside the rectangle.
    pub open spec fn contains(self, x: int, y: int) -> bool {
        &&& in_span(self.top_left.x as int, self.size.width as int, x)
        &&& in_span(self.top_left.y as int, self.size.height as int, y)
    }

    /// Whether `moved` holds, of the points a `Point` can name, exactly those
    /// that are a point of `source`, itself one a `Point` can name, moved by
    /// `by`.
    pub open spec fn is_shift_of(moved: Rectangle, source: Rectangle, by: Point) -> bool {
        forall|x: int, y: int|
            i32::MIN <= x <= i32::MAX && i32::MIN <= y <= i32::MAX ==> (#[trigger] moved.contains(
                x,
                y,
            ) <==> {
                &&& source.contains(x - by.x, y - by.y)
                &&& i32::MIN <= x - by.x <= i32::MAX
                &&& i32::MIN <= y - by.y <= i32::MAX
            })
    }

    /// The rectangle moved by `by`. The part that would leave the grid is cut
    /// off, so every point that remains is one that a `Point` can name.
    pub fn shift(&self, by: Point) -> (moved: Rectangle)
        ensures
            Self::is_shift_of(moved, *self, by),
    {
        let (x, width) = shift_span(self.top_left.x, self.size.width, by.x);
        let (y, height) = shift_span(self.top_left.y, self.size.height, by.y);
        let moved = Rectangle { top_left: Point { x, y }, size: Size { width, height } };
        assert forall|px: int, py: int|
            i32::MIN <= px <= i32::MAX && i32::MIN <= py <= i32::MAX implies (
        #[trigger] moved.contains(px, py) <==> {
            &&& self.contains(px - by.x, py - by.y)
            &&& i32::MIN <= px - by.x <= i32::MAX
            &&& i32::MIN <= py - by.y <= i32::MAX
        }) by {
            assert(in_span(x as int, width as int, px) <==> in_span(
                self.top_left.x + by.x,
                self.size.width as int,
                px,
            ) && px - by.x <= i32::MAX);
            assert(in_span(y as int, height as int, py) <==> in_span(
                self.top_left.y + by.y,
                self.size.height as int,
                py,
            ) && py - by.y <= i32::MAX);
        }
        moved
    }
}

/// Whether `v` is one of the `length` coordinates that start at `start`.
pub open spec fn in_span(start: int, length: int, v: int) -> bool {
    start <= v < start + length
}

/// Whether the span that starts at `moved.0` with length `moved.1` holds, of the
/// coordinates an `i32` can hold, exactly those that are a coordinate of the
/// span `start`, `length`, itself one an `i32` can hold, moved by `by`.
pub open spec fn span_is_shift_of(moved: (i32, u32), start: i32, length: u32, by: i32) -> bool {
    forall|v: int|
        i32::MIN <= v <= i32::MAX ==> (#[trigger] in_span(moved.0 as int, moved.1 as int, v)
            <==> in_span(start + by, length as int, v) && v - by <= i32::MAX)
}

/// Moves the span of `length` coordinates from `start` by `by`. Coordinates
/// that an `i32` cannot hold, before or after the move, are cut off.
pub fn shift_span(start: i32, length: u32, by: i32) -> (moved: (i32, u32))
    ensures
        span_is_shift_of(moved, start, length, by),
{
    let limit: i64 = i32::MAX as i64 + 1;
    let end: i64 = start as i64 + length as i64;
    let low: i64 = start as i64 + by as i64;
    let high: i64 = (if end > limit {
        limit
    } else {
        end
    }) + by as i64;
    if low > i32::MAX as i64 || high <= i32::MIN as i64 || high <= low {
        (0, 0)
    } else if low < i32::MIN as i64 {
        (i32::MIN, ((if high > limit {
            limit
        } else {
            high
        }) - i32::MIN as i64) as u32)
    } else {
        (low as i32, (high - low) as u32)
    }
}

} // verus!
