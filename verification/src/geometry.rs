//! Points and rectangles with bounded integer coordinates.
//!
//! Positions are kept within `MIN_COORD..=MAX_COORD` and extents within
//! `1..=MAX_COORD`, so that the right and bottom edge of any valid rectangle
//! still fit in an `i32`.

use vstd::prelude::*;

verus! {

/// Largest coordinate, and largest width or height.
pub const MAX_COORD: i32 = 1073741823;

/// Smallest coordinate.
pub const MIN_COORD: i32 = -1073741824;

/// The coordinate nearest to `v` within `MIN_COORD..=MAX_COORD`.
pub open spec fn clamp_position(v: int) -> int {
    if v > MAX_COORD {
        MAX_COORD as int
    } else if v < MIN_COORD {
        MIN_COORD as int
    } else {
        v
    }
}

/// The extent nearest to `v` within `1..=MAX_COORD`.
pub open spec fn clamp_size(v: int) -> int {
    if v <= 0 {
        1
    } else if v > MAX_COORD {
        MAX_COORD as int
    } else {
        v
    }
}

/// Whether `v` is a coordinate that clamping leaves alone.
pub open spec fn is_position(v: int) -> bool {
    MIN_COORD <= v <= MAX_COORD
}

/// Whether `v` is an extent that clamping leaves alone.
pub open spec fn is_size(v: int) -> bool {
    1 <= v <= MAX_COORD
}

/// Clamps a wide intermediate result into the coordinate range.
pub fn clamp_to_position(v: i64) -> (r: i32)
    ensures
        r == clamp_position(v as int),
        is_position(r as int),
{
    if v > MAX_COORD as i64 {
        MAX_COORD
    } else if v < MIN_COORD as i64 {
        MIN_COORD
    } else {
        v as i32
    }
}

/// Clamps a width or height into the extent range; zero becomes one.
pub fn clamp_to_size(v: u32) -> (r: u32)
    ensures
        r == clamp_size(v as int),
        is_size(r as int),
{
    if v == 0 {
        1
    } else if v > MAX_COORD as u32 {
        MAX_COORD as u32
    } else {
        v
    }
}

/// A point in world or sheet space.
#[derive(Debug, Clone, Copy, PartialEq, Eq, Structural)]
pub struct Point {
    pub x: i32,
    pub y: i32,
}

impl Point {
    /// Both coordinates lie in the coordinate range.
    pub open spec fn wf(self) -> bool {
        is_position(self.x as int) && is_position(self.y as int)
    }

    /// The point at `(x, y)`, each coordinate clamped into range.
    pub fn new(x: i32, y: i32) -> (p: Point)
        ensures
            p.x == clamp_position(x as int),
            p.y == clamp_position(y as int),
            p.wf(),
    {
        Point { x: clamp_to_position(x as i64), y: clamp_to_position(y as i64) }
    }

    /// The horizontal coordinate.
    pub fn x(self) -> (r: i32)
        ensures
            r == self.x,
    {
        self.x
    }

    /// The vertical coordinate.
    pub fn y(self) -> (r: i32)
        ensures
            r == self.y,
    {
        self.y
    }
}

/// An axis-aligned rectangle: top-left corner, width and height.
#[derive(Debug, Clone, Copy, PartialEq, Eq, Structural)]
pub struct Rect {
    pub x: i32,
    pub y: i32,
    pub w: u32,
    pub h: u32,
}

impl Rect {
    /// The corner lies in the coordinate range and the rectangle is not empty
    /// nor wider or taller than `MAX_COORD`.
    pub open spec fn wf(self) -> bool {
        &&& is_position(self.x as int)
        &&& is_position(self.y as int)
        &&& is_size(self.w as int)
        &&& is_size(self.h as int)
    }

    /// The rectangle that `new` builds from unbounded integers.
    pub open spec fn clamped(x: int, y: int, w: int, h: int) -> Rect {
        Rect {
            x: clamp_position(x) as i32,
            y: clamp_position(y) as i32,
            w: clamp_size(w) as u32,
            h: clamp_size(h) as u32,
        }
    }

    /// The rectangle with corner `(x, y)` and the given size, each value
    /// clamped into its range.
    pub fn new(x: i32, y: i32, width: u32, height: u32) -> (r: Rect)
        ensures
            r == Rect::clamped(x as int, y as int, width as int, height as int),
            r.wf(),
    {
        Rect {
            x: clamp_to_position(x as i64),
            y: clamp_to_position(y as i64),
            w: clamp_to_size(width),
            h: clamp_to_size(height),
        }
    }

    /// The horizontal coordinate of the left edge.
    pub fn x(&self) -> (r: i32)
        ensures
            r == self.x,
    {
        self.x
    }

    /// The vertical coordinate of the top edge.
    pub fn y(&self) -> (r: i32)
        ensures
            r == self.y,
    {
        self.y
    }

    /// The width.
    pub fn width(&self) -> (r: u32)
        ensures
            r == self.w,
    {
        self.w
    }

    /// The height.
    pub fn height(&self) -> (r: u32)
        ensures
            r == self.h,
    {
        self.h
    }

    /// Width and height as a pair.
    pub fn size(&self) -> (r: (u32, u32))
        ensures
            r == (self.w, self.h),
    {
        (self.w, self.h)
    }
}

} // verus!
