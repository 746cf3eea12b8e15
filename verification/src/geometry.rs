//! Points and boxes in canonical space.

use crate::units::clamp_i64;
use vstd::prelude::*;

verus! {

/// The sum of two canonical lengths, limited to the canonical range.
pub fn add_clamped(a: i64, b: i64) -> (sum: i64)
    ensures
        sum == clamp_i64(a + b),
{
    let wide: i128 = a as i128 + b as i128;
    if wide < i64::MIN as i128 {
        i64::MIN
    } else if wide > i64::MAX as i128 {
        i64::MAX
    } else {
        wide as i64
    }
}

/// The difference of two canonical lengths, limited to the canonical range.
pub fn sub_clamped(a: i64, b: i64) -> (difference: i64)
    ensures
        difference == clamp_i64(a - b),
{
    let wide: i128 = a as i128 - b as i128;
    if wide < i64::MIN as i128 {
        i64::MIN
    } else if wide > i64::MAX as i128 {
        i64::MAX
    } else {
        wide as i64
    }
}

/// The whole number halfway between `a` and `b`, rounded down.
pub open spec fn midpoint(a: int, b: int) -> int {
    (a + b) / 2
}

/// Computes the midpoint of two canonical lengths without leaving the
/// canonical range.
pub fn midpoint_of(a: i64, b: i64) -> (mid: i64)
    ensures
        mid == midpoint(a as int, b as int),
{
    let (lo, hi) = if a <= b {
        (a, b)
    } else {
        (b, a)
    };
    let half: i128 = (hi as i128 - lo as i128) / 2;
    (lo as i128 + half) as i64
}

/// A position in canonical space, in nanometres.
#[derive(Clone, Copy, Debug, PartialEq, Eq, Structural)]
pub struct Point {
    pub x: i64,
    pub y: i64,
}

impl View for Point {
    type V = (int, int);

    /// The point as a pair of unbounded integers.
    open spec fn view(&self) -> (int, int) {
        (self.x as int, self.y as int)
    }
}

/// Whether both coordinates of `p` are canonical lengths.
pub open spec fn in_canonical_range(p: (int, int)) -> bool {
    i64::MIN <= p.0 <= i64::MAX && i64::MIN <= p.1 <= i64::MAX
}

impl Point {
    pub fn new(x: i64, y: i64) -> (p: Point)
        ensures
            p.x == x,
            p.y == y,
    {
        Point { x, y }
    }

    /// The point all offsets are measured from.
    pub fn origin() -> (p: Point)
        ensures
            p.x == 0,
            p.y == 0,
    {
        Point { x: 0, y: 0 }
    }

    pub open spec fn spec_is_origin(self) -> bool {
        self.x == 0 && self.y == 0
    }

    #[verifier::when_used_as_spec(spec_is_origin)]
    pub fn is_origin(self) -> (b: bool)
        ensures
            b == self.spec_is_origin(),
    {
        self.x == 0 && self.y == 0
    }

    /// This point moved by `(dx, dy)`; each axis stops at the end of the
    /// canonical range.
    pub fn translated(self, dx: i64, dy: i64) -> (p: Point)
        ensures
            p.x == clamp_i64(self.x + dx),
            p.y == clamp_i64(self.y + dy),
    {
        Point { x: add_clamped(self.x, dx), y: add_clamped(self.y, dy) }
    }
}

/// An axis-aligned box in canonical space. A box whose `min` exceeds its
/// `max` on either axis holds nothing.
#[derive(Clone, Copy, Debug, PartialEq, Eq, Structural)]
pub struct BoundingBox {
    pub min: Point,
    pub max: Point,
}

impl BoundingBox {
    pub fn new(min: Point, max: Point) -> (b: BoundingBox)
        ensures
            b.min == min,
            b.max == max,
    {
        BoundingBox { min, max }
    }

    pub open spec fn spec_is_empty(&self) -> bool {
        self.min.x > self.max.x || self.min.y > self.max.y
    }

    pub open spec fn spec_width(&self) -> int {
        if self.spec_is_empty() {
            0
        } else {
            self.max.x - self.min.x
        }
    }

    pub open spec fn spec_height(&self) -> int {
        if self.spec_is_empty() {
            0
        } else {
            self.max.y - self.min.y
        }
    }

    pub open spec fn spec_center(&self) -> Point {
        Point {
            x: midpoint(self.min.x as int, self.max.x as int) as i64,
            y: midpoint(self.min.y as int, self.max.y as int) as i64,
        }
    }

    #[verifier::when_used_as_spec(spec_is_empty)]
    pub fn is_empty(&self) -> (b: bool)
        ensures
            b == self.spec_is_empty(),
    {
        self.min.x > self.max.x || self.min.y > self.max.y
    }

    /// Extent along x in nanometres; an empty box has none.
    pub fn width(&self) -> (w: u64)
        ensures
            w == self.spec_width(),
    {
        if self.is_empty() {
            0
        } else {
            (self.max.x as i128 - self.min.x as i128) as u64
        }
    }

    /// Extent along y in nanometres; an empty box has none.
    pub fn height(&self) -> (h: u64)
        ensures
            h == self.spec_height(),
    {
        if self.is_empty() {
            0
        } else {
            (self.max.y as i128 - self.min.y as i128) as u64
        }
    }

    /// The point halfway between the corners, each axis rounded down.
    pub fn center(&self) -> (c: Point)
        ensures
            c == self.spec_center(),
    {
        Point { x: midpoint_of(self.min.x, self.max.x), y: midpoint_of(self.min.y, self.max.y) }
    }

    /// This box moved by `(dx, dy)`, corner by corner.
    pub fn translated(&self, dx: i64, dy: i64) -> (b: BoundingBox)
        ensures
            b.min.x == clamp_i64(self.min.x + dx),
            b.min.y == clamp_i64(self.min.y + dy),
            b.max.x == clamp_i64(self.max.x + dx),
            b.max.y == clamp_i64(self.max.y + dy),
    {
        BoundingBox { min: self.min.translated(dx, dy), max: self.max.translated(dx, dy) }
    }
}

} // verus!
