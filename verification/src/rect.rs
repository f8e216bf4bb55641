//! The axis-aligned bounding box that outlines are measured with.

use vstd::prelude::*;

verus! {

/// Largest magnitude of a coordinate that the geometry works on.
pub const COORD_LIMIT: i64 = 1_000_000_000_000;

/// The negative of the largest magnitude.
pub const COORD_FLOOR: i64 = -1_000_000_000_000;

/// Whether `v` lies within the coordinate range.
pub open spec fn in_range(v: int) -> bool {
    COORD_FLOOR <= v <= COORD_LIMIT
}

/// Whether both coordinates of `p` lie within the coordinate range.
pub open spec fn point_in_range(p: (i64, i64)) -> bool {
    in_range(p.0 as int) && in_range(p.1 as int)
}

/// The smaller of two coordinates.
pub open spec fn lower(a: i64, b: i64) -> i64 {
    if b < a { b } else { a }
}

/// The larger of two coordinates.
pub open spec fn upper(a: i64, b: i64) -> i64 {
    if b > a { b } else { a }
}

/// A bounding box that grows point by point.
#[derive(Clone, Copy, Debug)]
pub struct Rect {
    pub min: (i64, i64),
    pub max: (i64, i64),
}

impl Rect {
    /// The box that covers nothing: every in-range point lies below its
    /// minimum corner and above its maximum corner.
    pub open spec fn spec_new() -> Rect {
        Rect { min: (COORD_LIMIT, COORD_LIMIT), max: (COORD_FLOOR, COORD_FLOOR) }
    }

    /// All four bounds lie within the coordinate range.
    pub open spec fn wf(self) -> bool {
        point_in_range(self.min) && point_in_range(self.max)
    }

    /// The box grown to cover `point`.
    pub open spec fn spec_extend(self, point: (i64, i64)) -> Rect {
        Rect {
            min: (lower(self.min.0, point.0), lower(self.min.1, point.1)),
            max: (upper(self.max.0, point.0), upper(self.max.1, point.1)),
        }
    }

    /// Horizontal extent.
    pub open spec fn spec_width(self) -> int {
        self.max.0 - self.min.0
    }

    /// Vertical extent.
    pub open spec fn spec_height(self) -> int {
        self.max.1 - self.min.1
    }

    /// Whether `point` lies inside the box, borders included.
    pub open spec fn covers(self, point: (i64, i64)) -> bool {
        self.min.0 <= point.0 <= self.max.0 && self.min.1 <= point.1 <= self.max.1
    }

    /// Whether every point of `other` lies inside this box.
    pub open spec fn encloses(self, other: Rect) -> bool {
        self.min.0 <= other.min.0 && self.min.1 <= other.min.1 && other.max.0 <= self.max.0
            && other.max.1 <= self.max.1
    }

    /// The empty box.
    pub fn new() -> (r: Rect)
        ensures
            r == Rect::spec_new(),
            r.wf(),
    {
        Rect { min: (COORD_LIMIT, COORD_LIMIT), max: (COORD_FLOOR, COORD_FLOOR) }
    }

    /// Grows the box so that it covers `point`.
    pub fn extend(&mut self, point: (i64, i64))
        ensures
            *final(self) == old(self).spec_extend(point),
    {
        if point.0 < self.min.0 {
            self.min.0 = point.0;
        }
        if point.0 > self.max.0 {
            self.max.0 = point.0;
        }
        if point.1 < self.min.1 {
            self.min.1 = point.1;
        }
        if point.1 > self.max.1 {
            self.max.1 = point.1;
        }
    }

    /// Whether all four bounds lie within the coordinate range.
    pub fn in_bounds(&self) -> (b: bool)
        ensures
            b == self.wf(),
    {
        COORD_FLOOR <= self.min.0 && self.min.0 <= COORD_LIMIT && COORD_FLOOR <= self.min.1
            && self.min.1 <= COORD_LIMIT && COORD_FLOOR <= self.max.0 && self.max.0
            <= COORD_LIMIT && COORD_FLOOR <= self.max.1 && self.max.1 <= COORD_LIMIT
    }

    /// Horizontal extent; negative for the empty box.
    pub fn width(&self) -> (w: i64)
        requires
            self.wf(),
        ensures
            w == self.spec_width(),
    {
        self.max.0 - self.min.0
    }

    /// Vertical extent; negative for the empty box.
    pub fn height(&self) -> (h: i64)
        requires
            self.wf(),
        ensures
            h == self.spec_height(),
    {
        self.max.1 - self.min.1
    }
}

/// Growing a box keeps what it covered, adds the new point, and moves each
/// bound only onto that point's coordinate. Once a point has been added the
/// minimum corner lies at or below the maximum corner, so neither extent is
/// negative. Within the coordinate range the result stays within it.
pub proof fn lemma_extend_covers(r: Rect, point: (i64, i64))
    ensures
        r.spec_extend(point).covers(point),
        r.spec_extend(point).min.0 <= r.spec_extend(point).max.0,
        r.spec_extend(point).min.1 <= r.spec_extend(point).max.1,
        r.spec_extend(point).spec_width() >= 0,
        r.spec_extend(point).spec_height() >= 0,
        r.spec_extend(point).encloses(r),
        r.spec_extend(point).min.0 == r.min.0 || r.spec_extend(point).min.0 == point.0,
        r.spec_extend(point).min.1 == r.min.1 || r.spec_extend(point).min.1 == point.1,
        r.spec_extend(point).max.0 == r.max.0 || r.spec_extend(point).max.0 == point.0,
        r.spec_extend(point).max.1 == r.max.1 || r.spec_extend(point).max.1 == point.1,
        r.wf() && point_in_range(point) ==> r.spec_extend(point).wf(),
        point_in_range(point) ==> Rect::spec_new().spec_extend(point) == (Rect {
            min: point,
            max: point,
        }),
{
}

} // verus!
