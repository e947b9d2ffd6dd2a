//! Window rectangles and points.
//!
//! A window rectangle crosses the guest boundary as (x, y) signed 64-bit and
//! (w, h) unsigned 32-bit values; all coordinate reasoning in the kernel uses
//! the same shapes.

use vstd::prelude::*;

verus! {

/// A point in compositor coordinates.
#[derive(Clone, Copy, PartialEq, Eq, Structural, Debug)]
pub struct Point2D {
    pub x: i64,
    pub y: i64,
}

/// A rectangle: top-left corner, width and height.
#[derive(Clone, Copy, PartialEq, Eq, Structural, Debug)]
pub struct Rect {
    pub x0: i64,
    pub y0: i64,
    pub w: u32,
    pub h: u32,
}

impl Rect {
    /// The exclusive right edge, as a mathematical integer.
    pub open spec fn spec_right(self) -> int {
        self.x0 + self.w
    }

    /// The exclusive bottom edge, as a mathematical integer.
    pub open spec fn spec_bottom(self) -> int {
        self.y0 + self.h
    }

    /// Whether the point (x, y) lies inside the rectangle.
    pub open spec fn spec_contains(self, x: int, y: int) -> bool {
        self.x0 <= x < self.spec_right() && self.y0 <= y < self.spec_bottom()
    }

    /// The top-left corner.
    pub fn origin(&self) -> (r: (i64, i64))
        ensures
            r == (self.x0, self.y0),
    {
        (self.x0, self.y0)
    }

    /// Whether the point (x, y) lies inside the rectangle.
    pub fn check_in(&self, x: i64, y: i64) -> (r: bool)
        ensures
            r == self.spec_contains(x as int, y as int),
    {
        let dx: i128 = x as i128 - self.x0 as i128;
        let dy: i128 = y as i128 - self.y0 as i128;
        0 <= dx && dx < self.w as i128 && 0 <= dy && dy < self.h as i128
    }

    /// Whether the point (x, y) lies inside the rectangle.
    pub fn check_contains_point(&self, x: i64, y: i64) -> (r: bool)
        ensures
            r == self.spec_contains(x as int, y as int),
    {
        self.check_in(x, y)
    }

    /// The smallest rectangle containing both `self` and `other`.
    ///
    /// The corner stays within `i64` because it is a minimum of two `i64`
    /// values; a width or height that would not fit in `u32` is clamped to
    /// `u32::MAX`.
    pub fn bounding_box(&self, other: &Rect) -> (r: Rect)
        ensures
            r.x0 == if self.x0 <= other.x0 { self.x0 as int } else { other.x0 as int },
            r.y0 == if self.y0 <= other.y0 { self.y0 as int } else { other.y0 as int },
            r.w == clamp_u32(max_int(self.spec_right(), other.spec_right()) - r.x0),
            r.h == clamp_u32(max_int(self.spec_bottom(), other.spec_bottom()) - r.y0),
    {
        let x0: i64 = if self.x0 <= other.x0 { self.x0 } else { other.x0 };
        let y0: i64 = if self.y0 <= other.y0 { self.y0 } else { other.y0 };
        let r1: i128 = self.x0 as i128 + self.w as i128;
        let r2: i128 = other.x0 as i128 + other.w as i128;
        let b1: i128 = self.y0 as i128 + self.h as i128;
        let b2: i128 = other.y0 as i128 + other.h as i128;
        let right: i128 = if r1 >= r2 { r1 } else { r2 };
        let bottom: i128 = if b1 >= b2 { b1 } else { b2 };
        let w: u32 = clamp_width(right - x0 as i128);
        let h: u32 = clamp_width(bottom - y0 as i128);
        Rect { x0, y0, w, h }
    }
}

/// The larger of two mathematical integers.
pub open spec fn max_int(a: int, b: int) -> int {
    if a >= b {
        a
    } else {
        b
    }
}

/// A mathematical integer forced into the `u32` range.
pub open spec fn clamp_u32(v: int) -> u32 {
    if v < 0 {
        0u32
    } else if v > u32::MAX {
        u32::MAX
    } else {
        v as u32
    }
}

/// Forces a value into the `u32` range.
pub fn clamp_width(v: i128) -> (r: u32)
    ensures
        r == clamp_u32(v as int),
{
    if v < 0 {
        0
    } else if v > u32::MAX as i128 {
        u32::MAX
    } else {
        v as u32
    }
}

} // verus!
