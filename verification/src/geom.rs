//! Fixed-point geometry. All coordinates are held in sub-pixel units
//! (`UNITS_PER_PIXEL` units to the device-independent pixel), so every
//! layout computation is exact integer arithmetic and resolves to the same
//! bits on every run. The solver clamps every computed value into
//! `[-COORD_LIMIT, COORD_LIMIT]`; that interval is the contracted
//! coordinate domain of the whole system.

use vstd::prelude::*;

verus! {

/// A coordinate in sub-pixel units.
pub type Coord = i64;

/// Sub-pixel units to one device-independent pixel.
pub const UNITS_PER_PIXEL: i64 = 1024;

/// The coordinate domain bound: every resolved value lies within
/// `[-COORD_LIMIT, COORD_LIMIT]`.
pub const COORD_LIMIT: i64 = 0x2000_0000_0000;

/// Quantization step used by the state hasher: 1/16 of a pixel.
pub const QUANT_STEP: i64 = 64;

/// `v` clamped into the coordinate domain.
pub open spec fn spec_clamp(v: int) -> int {
    if v > COORD_LIMIT as int {
        COORD_LIMIT as int
    } else if v < -(COORD_LIMIT as int) {
        -(COORD_LIMIT as int)
    } else {
        v
    }
}

/// Whether a coordinate lies in the contracted domain.
pub open spec fn in_domain(v: int) -> bool {
    -(COORD_LIMIT as int) <= v <= COORD_LIMIT as int
}

/// Clamp a wide intermediate value back into the coordinate domain.
pub fn clamp_wide(v: i128) -> (r: Coord)
    ensures
        r == spec_clamp(v as int),
        in_domain(r as int),
{
    if v > COORD_LIMIT as i128 {
        COORD_LIMIT
    } else if v < -(COORD_LIMIT as i128) {
        -COORD_LIMIT
    } else {
        v as i64
    }
}

/// Domain-clamped addition: the sum of two in-domain coordinates,
/// clamped back into the domain.
pub fn clamp_add(a: Coord, b: Coord) -> (r: Coord)
    requires
        in_domain(a as int),
        in_domain(b as int),
    ensures
        r == spec_clamp(a + b),
        in_domain(r as int),
{
    clamp_wide(a as i128 + b as i128)
}

/// A point in sub-pixel units.
#[derive(Clone, Copy, PartialEq, Eq, Structural, Debug)]
pub struct Point {
    /// Horizontal coordinate.
    pub x: Coord,
    /// Vertical coordinate.
    pub y: Coord,
}

impl Point {
    /// Both coordinates lie in the contracted domain.
    pub open spec fn wf(self) -> bool {
        in_domain(self.x as int) && in_domain(self.y as int)
    }

    /// The origin.
    pub fn zero() -> (r: Point)
        ensures
            r.x == 0 && r.y == 0,
            r.wf(),
    {
        Point { x: 0, y: 0 }
    }

    /// Component-wise domain-clamped sum.
    pub fn add(self, other: Point) -> (r: Point)
        requires
            self.wf(),
            other.wf(),
        ensures
            r.x == spec_clamp(self.x + other.x),
            r.y == spec_clamp(self.y + other.y),
            r.wf(),
    {
        Point { x: clamp_add(self.x, other.x), y: clamp_add(self.y, other.y) }
    }
}

/// An axis-aligned box, kept as its two corners with `x0 <= x1` and
/// `y0 <= y1`.
#[derive(Clone, Copy, PartialEq, Eq, Structural, Debug)]
pub struct Rect {
    /// Left edge.
    pub x0: Coord,
    /// Top edge.
    pub y0: Coord,
    /// Right edge.
    pub x1: Coord,
    /// Bottom edge.
    pub y1: Coord,
}

impl Rect {
    /// Corners ordered and in the coordinate domain.
    pub open spec fn wf(self) -> bool {
        self.x0 <= self.x1 && self.y0 <= self.y1
            && in_domain(self.x0 as int) && in_domain(self.x1 as int)
            && in_domain(self.y0 as int) && in_domain(self.y1 as int)
    }

    /// `self` lies entirely inside `outer`.
    pub open spec fn contained_in(self, outer: Rect) -> bool {
        outer.x0 <= self.x0 && self.x1 <= outer.x1
            && outer.y0 <= self.y0 && self.y1 <= outer.y1
    }

    /// The two boxes share at least an edge or overlap: neither lies
    /// strictly beyond the other on either axis.
    pub open spec fn spec_touches(self, other: Rect) -> bool {
        self.x0 <= other.x1 && other.x0 <= self.x1
            && self.y0 <= other.y1 && other.y0 <= self.y1
    }

    /// Whether the two boxes overlap or touch.
    pub fn touches(&self, other: &Rect) -> (r: bool)
        ensures
            r == self.spec_touches(*other),
    {
        self.x0 <= other.x1 && other.x0 <= self.x1 && self.y0 <= other.y1 && other.y0 <= self.y1
    }

    /// The bounding box of the two.
    pub open spec fn spec_union(self, other: Rect) -> Rect {
        Rect {
            x0: if self.x0 <= other.x0 { self.x0 } else { other.x0 },
            y0: if self.y0 <= other.y0 { self.y0 } else { other.y0 },
            x1: if self.x1 >= other.x1 { self.x1 } else { other.x1 },
            y1: if self.y1 >= other.y1 { self.y1 } else { other.y1 },
        }
    }

    /// Compute the bounding box of the two.
    pub fn union(&self, other: &Rect) -> (r: Rect)
        requires
            self.wf(),
            other.wf(),
        ensures
            r == self.spec_union(*other),
            r.wf(),
            self.contained_in(r),
            other.contained_in(r),
    {
        Rect {
            x0: if self.x0 <= other.x0 { self.x0 } else { other.x0 },
            y0: if self.y0 <= other.y0 { self.y0 } else { other.y0 },
            x1: if self.x1 >= other.x1 { self.x1 } else { other.x1 },
            y1: if self.y1 >= other.y1 { self.y1 } else { other.y1 },
        }
    }
}

} // verus!
