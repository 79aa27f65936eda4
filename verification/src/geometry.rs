//! Axis-aligned integer rectangles and grid coordinates.
//!
//! A `Rect` uses the inclusive-bound convention: a rectangle of width `w`
//! spans the `w + 1` columns from `left()` to `right()`.

use vstd::prelude::*;

use crate::rng::GenRng;

verus! {

/// What `clamp` returns: `x` forced into `[min, max]`, with `max` winning
/// when the bounds cross.
pub open spec fn spec_clamp(x: int, min: int, max: int) -> int {
    if x > max {
        max
    } else if x < min {
        min
    } else {
        x
    }
}

/// Clamps `x` into the interval `[min, max]`.
pub fn clamp(x: i32, min: i32, max: i32) -> (r: i32)
    ensures
        r as int == spec_clamp(x as int, min as int, max as int),
{
    if x > max {
        max
    } else if x < min {
        min
    } else {
        x
    }
}

/// An axis-aligned rectangle on the tile grid, in grid units.
#[derive(Debug, Clone, Copy, PartialEq, Eq, Structural)]
pub struct Rect {
    pub x: i32,
    pub y: i32,
    pub width: i32,
    pub height: i32,
}

impl Rect {
    /// A well-formed rectangle sits at non-negative coordinates, has
    /// non-negative extents, and its far edges fit in `i32`.
    pub open spec fn wf(self) -> bool {
        &&& 0 <= self.x
        &&& 0 <= self.y
        &&& 0 <= self.width
        &&& 0 <= self.height
        &&& self.x + self.width <= i32::MAX
        &&& self.y + self.height <= i32::MAX
    }

    pub open spec fn spec_left(self) -> int {
        self.x as int
    }

    pub open spec fn spec_right(self) -> int {
        self.x + self.width
    }

    pub open spec fn spec_top(self) -> int {
        self.y as int
    }

    pub open spec fn spec_bottom(self) -> int {
        self.y + self.height
    }

    /// Boundary-inclusive intersection: two rectangles intersect unless they
    /// are strictly separated on some axis, so touching edges count.
    pub open spec fn spec_intersects(self, other: Rect) -> bool {
        !(self.spec_left() > other.spec_right() || self.spec_right() < other.spec_left()
            || self.spec_top() > other.spec_bottom() || self.spec_bottom() < other.spec_top())
    }

    /// The rectangle grown by `b` on every side, except that the left/top
    /// corner is clamped at 0 rather than extending the width, so the
    /// effective margin is asymmetric near the grid origin.
    pub open spec fn spec_buffer(self, b: int) -> Rect {
        Rect {
            x: spec_clamp(self.x - b, 0, self.x as int) as i32,
            y: spec_clamp(self.y - b, 0, self.y as int) as i32,
            width: (self.width + b) as i32,
            height: (self.height + b) as i32,
        }
    }

    /// Intersection after growing both rectangles by `b`.
    pub open spec fn spec_intersects_with_buffer(self, other: Rect, b: int) -> bool {
        self.spec_buffer(b).spec_intersects(other.spec_buffer(b))
    }

    pub fn new(x: i32, y: i32, width: i32, height: i32) -> (r: Rect)
        ensures
            r == (Rect { x, y, width, height }),
    {
        Rect { x, y, width, height }
    }

    /// Whether the point lies inside the rectangle, edges included.
    pub fn contains(&self, p: (i32, i32)) -> (r: bool)
        requires
            self.wf(),
        ensures
            r == (self.spec_left() <= p.0 <= self.spec_right()
                && self.spec_top() <= p.1 <= self.spec_bottom()),
    {
        (p.0 >= self.left() && p.0 <= self.right()) && (p.1 >= self.top() && p.1 <= self.bottom())
    }

    /// The integer midpoint (floor division).
    pub fn center(&self) -> (r: (i32, i32))
        requires
            self.wf(),
        ensures
            r.0 == self.x + self.width as int / 2,
            r.1 == self.y + self.height as int / 2,
    {
        (self.x + self.width / 2, self.y + self.height / 2)
    }

    pub fn intersects(&self, other: &Rect) -> (r: bool)
        requires
            self.wf(),
            other.wf(),
        ensures
            r == self.spec_intersects(*other),
    {
        !(self.left() > other.right() || self.right() < other.left()
            || self.top() > other.bottom() || self.bottom() < other.top())
    }

    pub fn intersects_with_buffer(&self, other: &Rect, buffer: i32) -> (r: bool)
        requires
            self.wf(),
            other.wf(),
            0 <= buffer,
            self.width + buffer <= i32::MAX,
            self.height + buffer <= i32::MAX,
            other.width + buffer <= i32::MAX,
            other.height + buffer <= i32::MAX,
        ensures
            r == self.spec_intersects_with_buffer(*other, buffer as int),
    {
        self.buffer(buffer).intersects(&other.buffer(buffer))
    }

    pub fn buffer(&self, buffer: i32) -> (r: Rect)
        requires
            self.wf(),
            0 <= buffer,
            self.width + buffer <= i32::MAX,
            self.height + buffer <= i32::MAX,
        ensures
            r == self.spec_buffer(buffer as int),
            r.wf(),
    {
        Rect::new(
            clamp(self.x - buffer, 0, self.x),
            clamp(self.y - buffer, 0, self.y),
            self.width + buffer,
            self.height + buffer,
        )
    }

    pub fn x(&self) -> (r: i32)
        ensures
            r == self.x,
    {
        self.x
    }

    pub fn left(&self) -> (r: i32)
        ensures
            r == self.x,
    {
        self.x
    }

    pub fn right(&self) -> (r: i32)
        requires
            self.wf(),
        ensures
            r as int == self.spec_right(),
    {
        self.x + self.width
    }

    pub fn y(&self) -> (r: i32)
        ensures
            r == self.y,
    {
        self.y
    }

    pub fn top(&self) -> (r: i32)
        ensures
            r == self.y,
    {
        self.y
    }

    pub fn bottom(&self) -> (r: i32)
        requires
            self.wf(),
        ensures
            r as int == self.spec_bottom(),
    {
        self.y + self.height
    }

    /// Samples each field independently and uniformly from its half-open
    /// range `[lo, hi)`.
    pub fn random_rect(
        rng: &mut GenRng,
        x_range: (i32, i32),
        y_range: (i32, i32),
        w_range: (i32, i32),
        h_range: (i32, i32),
    ) -> (r: Rect)
        requires
            x_range.0 < x_range.1,
            y_range.0 < y_range.1,
            w_range.0 < w_range.1,
            h_range.0 < h_range.1,
        ensures
            x_range.0 <= r.x < x_range.1,
            y_range.0 <= r.y < y_range.1,
            w_range.0 <= r.width < w_range.1,
            h_range.0 <= r.height < h_range.1,
    {
        Rect {
            x: rng.sample_range(x_range.0, x_range.1),
            y: rng.sample_range(y_range.0, y_range.1),
            width: rng.sample_range(w_range.0, w_range.1),
            height: rng.sample_range(h_range.0, h_range.1),
        }
    }
}

/// A pair of grid coordinates. Equality is exact, field by field.
#[derive(Debug, Clone, Copy, PartialEq, Eq, Structural)]
pub struct Coords {
    pub x: i32,
    pub y: i32,
}

impl Coords {
    pub fn new(x: i32, y: i32) -> (r: Coords)
        ensures
            r == (Coords { x, y }),
    {
        Coords { x, y }
    }

    /// Manhattan distance to `other`.
    pub fn distance(&self, other: Coords) -> (r: i32)
        requires
            i32::MIN < self.x - other.x <= i32::MAX,
            i32::MIN < self.y - other.y <= i32::MAX,
            abs_int(self.x - other.x) + abs_int(self.y - other.y) <= i32::MAX,
        ensures
            r == abs_int(self.x - other.x) + abs_int(self.y - other.y),
    {
        let dx = self.x - other.x;
        let dy = self.y - other.y;
        let ax: i32 = if dx < 0 { -dx } else { dx };
        let ay: i32 = if dy < 0 { -dy } else { dy };
        ax + ay
    }
}

impl From<(i32, i32)> for Coords {
    fn from(p: (i32, i32)) -> (r: Coords) {
        Coords { x: p.0, y: p.1 }
    }
}

impl vstd::std_specs::convert::FromSpecImpl<(i32, i32)> for Coords {
    open spec fn obeys_from_spec() -> bool {
        true
    }

    open spec fn from_spec(p: (i32, i32)) -> Coords {
        Coords { x: p.0, y: p.1 }
    }
}

/// The absolute value of an integer.
pub open spec fn abs_int(x: int) -> int {
    if x < 0 {
        -x
    } else {
        x
    }
}

} // verus!
