//! The mathematical model of axis-aligned boxes: closed boxes over the
//! integers, given by their least and greatest corners.

use vstd::prelude::*;
use vstd::math::{max, min};

verus! {

/// Coordinate `i` of a pair: `x` for 0, `y` otherwise.
pub open spec fn axis2(v: (int, int), i: int) -> int {
    if i == 0 {
        v.0
    } else {
        v.1
    }
}

/// Coordinate `i` of a triple: `x` for 0, `y` for 1, `z` otherwise.
pub open spec fn axis3(v: (int, int, int), i: int) -> int {
    if i == 0 {
        v.0
    } else if i == 1 {
        v.1
    } else {
        v.2
    }
}

/// An axis-aligned box in two dimensions, as the integer corners `lo` and `hi`.
/// A box whose `lo` exceeds `hi` on some axis holds no point.
pub struct Box2 {
    pub lo: (int, int),
    pub hi: (int, int),
}

/// An axis-aligned box in three dimensions, as the integer corners `lo` and `hi`.
/// A box whose `lo` exceeds `hi` on some axis holds no point.
pub struct Box3 {
    pub lo: (int, int, int),
    pub hi: (int, int, int),
}

impl Box2 {
    /// The box with corners taken from `p` and `q`, whatever their order.
    pub open spec fn spanning(p: (int, int), q: (int, int)) -> Box2 {
        Box2 { lo: (min(p.0, q.0), min(p.1, q.1)), hi: (max(p.0, q.0), max(p.1, q.1)) }
    }

    /// Whether `lo <= hi` on both axes.
    pub open spec fn is_ordered(self) -> bool {
        self.lo.0 <= self.hi.0 && self.lo.1 <= self.hi.1
    }

    /// Whether `p` lies in the closed box.
    pub open spec fn contains(self, p: (int, int)) -> bool {
        &&& self.lo.0 <= p.0 <= self.hi.0
        &&& self.lo.1 <= p.1 <= self.hi.1
    }

    /// Whether `p` lies in the box, the greater boundaries excluded.
    pub open spec fn contains_lb(self, p: (int, int)) -> bool {
        &&& self.lo.0 <= p.0 < self.hi.0
        &&& self.lo.1 <= p.1 < self.hi.1
    }

    /// The box grown to take in `p`.
    pub open spec fn extend(self, p: (int, int)) -> Box2 {
        Box2 {
            lo: (min(self.lo.0, p.0), min(self.lo.1, p.1)),
            hi: (max(self.hi.0, p.0), max(self.hi.1, p.1)),
        }
    }

    /// The least box around both boxes.
    pub open spec fn union(self, o: Box2) -> Box2 {
        Box2 {
            lo: (min(self.lo.0, o.lo.0), min(self.lo.1, o.lo.1)),
            hi: (max(self.hi.0, o.hi.0), max(self.hi.1, o.hi.1)),
        }
    }

    /// The corners of the common part of two boxes (ordered iff the part is not empty).
    pub open spec fn meet(self, o: Box2) -> Box2 {
        Box2 {
            lo: (max(self.lo.0, o.lo.0), max(self.lo.1, o.lo.1)),
            hi: (min(self.hi.0, o.hi.0), min(self.hi.1, o.hi.1)),
        }
    }

    /// Whether the two boxes touch on both axes.
    pub open spec fn overlaps(self, o: Box2) -> bool {
        &&& self.hi.0 >= o.lo.0 && self.lo.0 <= o.hi.0
        &&& self.hi.1 >= o.lo.1 && self.lo.1 <= o.hi.1
    }

    /// The box with each boundary moved outwards by `d`.
    pub open spec fn expanded(self, d: int) -> Box2 {
        Box2 { lo: (self.lo.0 - d, self.lo.1 - d), hi: (self.hi.0 + d, self.hi.1 + d) }
    }

    /// The vector from `lo` to `hi`.
    pub open spec fn diagonal(self) -> (int, int) {
        (self.hi.0 - self.lo.0, self.hi.1 - self.lo.1)
    }

    /// The area, zero when the box is not ordered.
    pub open spec fn area(self) -> int {
        let d = self.diagonal();
        if d.0 >= 0 && d.1 >= 0 {
            d.0 * d.1
        } else {
            0
        }
    }

    /// The axis of greatest extent, the second one on a tie.
    pub open spec fn max_extent(self) -> int {
        let d = self.diagonal();
        if d.0 > d.1 {
            0
        } else {
            1
        }
    }

    /// Corner `i` for `i < 4`: bit 0 of `i` picks the x bound, bit 1 the y bound.
    pub open spec fn corner(self, i: int) -> (int, int) {
        (if i % 2 == 0 { self.lo.0 } else { self.hi.0 }, if i < 2 { self.lo.1 } else { self.hi.1 })
    }
}

impl Box3 {
    /// The box with corners taken from `p` and `q`, whatever their order.
    pub open spec fn spanning(p: (int, int, int), q: (int, int, int)) -> Box3 {
        Box3 {
            lo: (min(p.0, q.0), min(p.1, q.1), min(p.2, q.2)),
            hi: (max(p.0, q.0), max(p.1, q.1), max(p.2, q.2)),
        }
    }

    /// The face seen along axis `i`: the box with that axis dropped.
    pub open spec fn face(self, i: int) -> Box2 {
        if i == 0 {
            Box2 { lo: (self.lo.1, self.lo.2), hi: (self.hi.1, self.hi.2) }
        } else if i == 1 {
            Box2 { lo: (self.lo.0, self.lo.2), hi: (self.hi.0, self.hi.2) }
        } else {
            Box2 { lo: (self.lo.0, self.lo.1), hi: (self.hi.0, self.hi.1) }
        }
    }

    /// Whether `lo <= hi` on every axis.
    pub open spec fn is_ordered(self) -> bool {
        self.lo.0 <= self.hi.0 && self.lo.1 <= self.hi.1 && self.lo.2 <= self.hi.2
    }

    /// Whether `p` lies in the closed box.
    pub open spec fn contains(self, p: (int, int, int)) -> bool {
        &&& self.lo.0 <= p.0 <= self.hi.0
        &&& self.lo.1 <= p.1 <= self.hi.1
        &&& self.lo.2 <= p.2 <= self.hi.2
    }

    /// Whether `p` lies in the box, the greater boundaries excluded.
    pub open spec fn contains_lb(self, p: (int, int, int)) -> bool {
        &&& self.lo.0 <= p.0 < self.hi.0
        &&& self.lo.1 <= p.1 < self.hi.1
        &&& self.lo.2 <= p.2 < self.hi.2
    }

    /// The box grown to take in `p`.
    pub open spec fn extend(self, p: (int, int, int)) -> Box3 {
        Box3 {
            lo: (min(self.lo.0, p.0), min(self.lo.1, p.1), min(self.lo.2, p.2)),
            hi: (max(self.hi.0, p.0), max(self.hi.1, p.1), max(self.hi.2, p.2)),
        }
    }

    /// The least box around both boxes.
    pub open spec fn union(self, o: Box3) -> Box3 {
        Box3 {
            lo: (min(self.lo.0, o.lo.0), min(self.lo.1, o.lo.1), min(self.lo.2, o.lo.2)),
            hi: (max(self.hi.0, o.hi.0), max(self.hi.1, o.hi.1), max(self.hi.2, o.hi.2)),
        }
    }

    /// The corners of the common part of two boxes (ordered iff the part is not empty).
    pub open spec fn meet(self, o: Box3) -> Box3 {
        Box3 {
            lo: (max(self.lo.0, o.lo.0), max(self.lo.1, o.lo.1), max(self.lo.2, o.lo.2)),
            hi: (min(self.hi.0, o.hi.0), min(self.hi.1, o.hi.1), min(self.hi.2, o.hi.2)),
        }
    }

    /// Whether the two boxes touch on every axis.
    pub open spec fn overlaps(self, o: Box3) -> bool {
        &&& self.hi.0 >= o.lo.0 && self.lo.0 <= o.hi.0
        &&& self.hi.1 >= o.lo.1 && self.lo.1 <= o.hi.1
        &&& self.hi.2 >= o.lo.2 && self.lo.2 <= o.hi.2
    }

    /// The box with each boundary moved outwards by `d`.
    pub open spec fn expanded(self, d: int) -> Box3 {
        Box3 {
            lo: (self.lo.0 - d, self.lo.1 - d, self.lo.2 - d),
            hi: (self.hi.0 + d, self.hi.1 + d, self.hi.2 + d),
        }
    }

    /// The vector from `lo` to `hi`.
    pub open spec fn diagonal(self) -> (int, int, int) {
        (self.hi.0 - self.lo.0, self.hi.1 - self.lo.1, self.hi.2 - self.lo.2)
    }

    /// The surface area, each extent below zero counted as zero.
    pub open spec fn surface_area(self) -> int {
        let d = self.diagonal();
        let (x, y, z) = (max(d.0, 0), max(d.1, 0), max(d.2, 0));
        2 * (x * y + x * z + y * z)
    }

    /// The volume, zero when some extent is not positive.
    pub open spec fn volume(self) -> int {
        let d = self.diagonal();
        if d.0 <= 0 || d.1 <= 0 || d.2 <= 0 {
            0
        } else {
            d.0 * d.1 * d.2
        }
    }

    /// The axis of greatest extent; on a tie the later axis wins.
    pub open spec fn max_extent(self) -> int {
        let d = self.diagonal();
        if d.0 > d.1 && d.0 > d.2 {
            0
        } else if d.1 > d.2 {
            1
        } else {
            2
        }
    }

    /// Corner `i` for `i < 8`: bit 0 of `i` picks the x bound, bit 1 the y
    /// bound and bit 2 the z bound (clear for the least, set for the greatest).
    pub open spec fn corner(self, i: int) -> (int, int, int) {
        (
            if i % 2 == 0 { self.lo.0 } else { self.hi.0 },
            if (i / 2) % 2 == 0 { self.lo.1 } else { self.hi.1 },
            if (i / 4) % 2 == 0 { self.lo.2 } else { self.hi.2 },
        )
    }
}

/// The state of a row-major scan over the integer points of a half-open box:
/// the next point `(x, y)`, the end of each row `x_end`, the end row `y_end`,
/// and the column `x_start` that each row starts from.
pub struct RowScan {
    pub x: int,
    pub y: int,
    pub x_end: int,
    pub y_end: int,
    pub x_start: int,
}

impl RowScan {
    /// The scan over `[lo.0, hi.0) x [lo.1, hi.1)`, not yet started.
    pub open spec fn over(b: Box2) -> RowScan {
        RowScan { x: b.lo.0, y: b.lo.1, x_end: b.hi.0, y_end: b.hi.1, x_start: b.lo.0 }
    }

    /// What one step of the scan yields, and the state it leaves:
    /// the current point while the row has one; else the first point of the
    /// next row, if there is a next row and rows are not empty; else nothing,
    /// with the scan moved past the last row.
    pub open spec fn step(self) -> (Option<(int, int)>, RowScan) {
        if self.y < self.y_end && self.x < self.x_end {
            (Some((self.x, self.y)), RowScan { x: self.x + 1, ..self })
        } else if self.y < self.y_end && self.y + 1 < self.y_end && self.x_start < self.x_end {
            (Some((self.x_start, self.y + 1)), RowScan { x: self.x_start + 1, y: self.y + 1, ..self })
        } else if self.y < self.y_end {
            (None, RowScan { x: self.x_start, y: self.y_end, ..self })
        } else {
            (None, self)
        }
    }

    /// The state after `k` steps.
    pub open spec fn after(self, k: nat) -> RowScan
        decreases k,
    {
        if k == 0 {
            self
        } else {
            self.after((k - 1) as nat).step().1
        }
    }

    /// What step number `k` (counting from zero) yields.
    pub open spec fn nth(self, k: nat) -> Option<(int, int)> {
        self.after(k).step().0
    }
}

} // verus!
