//! 2D and 3D bounding boxes.

use vstd::prelude::*;
use super::coord::{Coord, partial_max, partial_min};
use super::model::{Box2, Box3, RowScan};
use super::point::{fits, Point2, Point3, Vector2, Vector3};

verus! {

/// A 2D bounding box.
#[derive(PartialEq, Eq, Copy, Clone, Debug, Hash)]
pub struct BBox2<T> {
    /// min corner of the bounding box
    pub pmin: Point2<T>,
    /// max corner of the bounding box
    pub pmax: Point2<T>,
}

impl<T: Coord> View for BBox2<T> {
    type V = Box2;

    open spec fn view(&self) -> Box2 {
        Box2 { lo: self.pmin@, hi: self.pmax@ }
    }
}

impl<T: Coord> BBox2<T> {
    /// Construct a new bounding box marked by two corner vertices.
    pub fn new(p: Point2<T>, q: Point2<T>) -> (r: BBox2<T>)
        ensures
            r@ == Box2::spanning(p@, q@),
    {
        BBox2 {
            pmin: Point2::new(partial_min(p.x, q.x), partial_min(p.y, q.y)),
            pmax: Point2::new(partial_max(p.x, q.x), partial_max(p.y, q.y)),
        }
    }

    /// Return the `i`th corner vertex.
    pub fn corner(&self, i: usize) -> (r: Point2<T>)
        requires
            i < 4,
        ensures
            r@ == self@.corner(i as int),
    {
        assert((i & 1usize) == 0usize <==> i % 2 == 0) by (bit_vector)
            requires
                i < 4usize,
        ;
        assert((i & 2usize) == 0usize <==> i < 2) by (bit_vector)
            requires
                i < 4usize,
        ;
        let x = if (i & 1) == 0 {
            self.pmin.x
        } else {
            self.pmax.x
        };
        let y = if (i & 2) == 0 {
            self.pmin.y
        } else {
            self.pmax.y
        };
        Point2::new(x, y)
    }

    /// Extend the bounding box with `p`, return the resultant new bbox.
    pub fn extend(&self, p: Point2<T>) -> (r: Self)
        ensures
            r@ == self@.extend(p@),
    {
        BBox2 {
            pmin: Point2::new(partial_min(self.pmin.x, p.x), partial_min(self.pmin.y, p.y)),
            pmax: Point2::new(partial_max(self.pmax.x, p.x), partial_max(self.pmax.y, p.y)),
        }
    }

    /// Return the union of two bounding boxes.
    pub fn union(&self, other: &Self) -> (r: Self)
        ensures
            r@ == self@.union(other@),
    {
        BBox2 {
            pmin: Point2::new(
                partial_min(self.pmin.x, other.pmin.x),
                partial_min(self.pmin.y, other.pmin.y),
            ),
            pmax: Point2::new(
                partial_max(self.pmax.x, other.pmax.x),
                partial_max(self.pmax.y, other.pmax.y),
            ),
        }
    }

    /// Return the intersection of two bounding boxes, `None` when it is empty.
    pub fn intersect(&self, other: &Self) -> (r: Option<Self>)
        ensures
            r is Some <==> self@.meet(other@).is_ordered(),
            r matches Some(b) ==> b@ == self@.meet(other@),
    {
        let ret = BBox2 {
            pmin: Point2::new(
                partial_max(self.pmin.x, other.pmin.x),
                partial_max(self.pmin.y, other.pmin.y),
            ),
            pmax: Point2::new(
                partial_min(self.pmax.x, other.pmax.x),
                partial_min(self.pmax.y, other.pmax.y),
            ),
        };
        if ret.pmax.x.lt(&ret.pmin.x) || ret.pmax.y.lt(&ret.pmin.y) {
            None
        } else {
            Some(ret)
        }
    }

    /// Return if two bounding boxes overlap.
    pub fn overlap(&self, other: &Self) -> (r: bool)
        ensures
            r == self@.overlaps(other@),
    {
        (other.pmin.x.le(&self.pmax.x) && self.pmin.x.le(&other.pmax.x)) && (other.pmin.y.le(
            &self.pmax.y,
        ) && self.pmin.y.le(&other.pmax.y))
    }

    /// Return if `self` contains `p`.
    pub fn contain(&self, p: Point2<T>) -> (r: bool)
        ensures
            r == self@.contains(p@),
    {
        (p.x.le(&self.pmax.x) && self.pmin.x.le(&p.x)) && (p.y.le(&self.pmax.y) && self.pmin.y.le(
            &p.y,
        ))
    }

    /// Return if `self` contains `p`, excluding the case when `p` lies on
    /// the greater boundaries.
    pub fn contain_lb(&self, p: Point2<T>) -> (r: bool)
        ensures
            r == self@.contains_lb(p@),
    {
        (p.x.lt(&self.pmax.x) && self.pmin.x.le(&p.x)) && (p.y.lt(&self.pmax.y) && self.pmin.y.le(
            &p.y,
        ))
    }

    /// Expand each boundary by `delta`. Note that `delta` can be negative.
    pub fn expand_by(&self, delta: T) -> (r: Self)
        requires
            fits::<T>(-delta.as_int()),
            fits::<T>(self.pmin.x.as_int() - delta.as_int()),
            fits::<T>(self.pmin.y.as_int() - delta.as_int()),
            fits::<T>(self.pmax.x.as_int() + delta.as_int()),
            fits::<T>(self.pmax.y.as_int() + delta.as_int()),
        ensures
            r@ == self@.expanded(delta.as_int()),
    {
        let neg = delta.neg();
        BBox2 {
            pmin: Point2::new(self.pmin.x.add(neg), self.pmin.y.add(neg)),
            pmax: Point2::new(self.pmax.x.add(delta), self.pmax.y.add(delta)),
        }
    }

    /// Return the diagonal vector, from `pmin` to `pmax`.
    pub fn diagonal(&self) -> (r: Vector2<T>)
        requires
            fits::<T>(self@.diagonal().0),
            fits::<T>(self@.diagonal().1),
        ensures
            r@ == self@.diagonal(),
    {
        Vector2::new(self.pmax.x.sub(self.pmin.x), self.pmax.y.sub(self.pmin.y))
    }

    /// Return the surface area of the bounding box.
    pub fn surface_area(&self) -> (r: T)
        requires
            fits::<T>(self@.diagonal().0),
            fits::<T>(self@.diagonal().1),
            fits::<T>(self@.area()),
        ensures
            r.as_int() == self@.area(),
    {
        let dx = self.pmax.x.sub(self.pmin.x);
        let dy = self.pmax.y.sub(self.pmin.y);
        let zero = T::zero();
        if zero.le(&dx) && zero.le(&dy) {
            dx.mul(dy)
        } else {
            zero
        }
    }

    /// Returns the index of the axis along which the bounding
    /// box has maximum extent.
    pub fn max_extent(&self) -> (r: usize)
        requires
            fits::<T>(self@.diagonal().0),
            fits::<T>(self@.diagonal().1),
        ensures
            r == self@.max_extent(),
    {
        let d = self.diagonal();
        if d.y.lt(&d.x) {
            0usize
        } else {
            1usize
        }
    }

    /// Casting to another type of bbox.
    pub fn cast<R: Coord>(&self) -> (r: BBox2<R>)
        requires
            fits::<R>(self.pmin.x.as_int()),
            fits::<R>(self.pmin.y.as_int()),
            fits::<R>(self.pmax.x.as_int()),
            fits::<R>(self.pmax.y.as_int()),
        ensures
            r@ == self@,
    {
        BBox2 { pmin: self.pmin.cast(), pmax: self.pmax.cast() }
    }
}

/// A 3D bounding box.
#[derive(PartialEq, Eq, Copy, Clone, Debug, Hash)]
pub struct BBox3<T> {
    /// min corner of the bounding box
    pub pmin: Point3<T>,
    /// max corner of the bounding box
    pub pmax: Point3<T>,
}

impl<T: Coord> View for BBox3<T> {
    type V = Box3;

    open spec fn view(&self) -> Box3 {
        Box3 { lo: self.pmin@, hi: self.pmax@ }
    }
}

impl<T: Coord> BBox3<T> {
    /// Construct a new bounding box marked by two corner vertices.
    pub fn new(p: Point3<T>, q: Point3<T>) -> (r: BBox3<T>)
        ensures
            r@ == Box3::spanning(p@, q@),
    {
        BBox3 {
            pmin: Point3::new(partial_min(p.x, q.x), partial_min(p.y, q.y), partial_min(p.z, q.z)),
            pmax: Point3::new(partial_max(p.x, q.x), partial_max(p.y, q.y), partial_max(p.z, q.z)),
        }
    }

    /// Return the `i`th of the eight corner vertices, for `i < 8`: bit 0 of
    /// `i` picks `pmax.x` over `pmin.x`, bit 1 picks `pmax.y` over `pmin.y`,
    /// and bit 2 picks `pmax.z` over `pmin.z`.
    pub fn corner(&self, i: usize) -> (r: Point3<T>)
        requires
            i < 8,
        ensures
            r@ == self@.corner(i as int),
    {
        assert((i & 1usize) == 0usize <==> i % 2 == 0) by (bit_vector)
            requires
                i < 8usize,
        ;
        assert((i & 2usize) == 0usize <==> (i / 2) % 2 == 0) by (bit_vector)
            requires
                i < 8usize,
        ;
        assert((i & 4usize) == 0usize <==> (i / 4) % 2 == 0) by (bit_vector)
            requires
                i < 8usize,
        ;
        let x = if (i & 1) == 0 {
            self.pmin.x
        } else {
            self.pmax.x
        };
        let y = if (i & 2) == 0 {
            self.pmin.y
        } else {
            self.pmax.y
        };
        let z = if (i & 4) == 0 {
            self.pmin.z
        } else {
            self.pmax.z
        };
        Point3::new(x, y, z)
    }

    /// `index == false` for `self.pmin`, else `self.pmax`.
    pub fn index(&self, index: bool) -> (r: Point3<T>)
        ensures
            r == (if index { self.pmax } else { self.pmin }),
    {
        if index {
            self.pmax
        } else {
            self.pmin
        }
    }

    /// Extend the bounding box with `p`, return the resultant new bbox.
    pub fn extend(&self, p: Point3<T>) -> (r: Self)
        ensures
            r@ == self@.extend(p@),
    {
        BBox3 {
            pmin: Point3::new(
                partial_min(self.pmin.x, p.x),
                partial_min(self.pmin.y, p.y),
                partial_min(self.pmin.z, p.z),
            ),
            pmax: Point3::new(
                partial_max(self.pmax.x, p.x),
                partial_max(self.pmax.y, p.y),
                partial_max(self.pmax.z, p.z),
            ),
        }
    }

    /// Return the union of two bounding boxes.
    pub fn union(&self, other: &Self) -> (r: Self)
        ensures
            r@ == self@.union(other@),
    {
        BBox3 {
            pmin: Point3::new(
                partial_min(self.pmin.x, other.pmin.x),
                partial_min(self.pmin.y, other.pmin.y),
                partial_min(self.pmin.z, other.pmin.z),
            ),
            pmax: Point3::new(
                partial_max(self.pmax.x, other.pmax.x),
                partial_max(self.pmax.y, other.pmax.y),
                partial_max(self.pmax.z, other.pmax.z),
            ),
        }
    }

    /// Return the intersection of two bounding boxes, `None` when it is empty.
    pub fn intersect(&self, other: &Self) -> (r: Option<Self>)
        ensures
            r is Some <==> self@.meet(other@).is_ordered(),
            r matches Some(b) ==> b@ == self@.meet(other@),
    {
        let ret = BBox3 {
            pmin: Point3::new(
                partial_max(self.pmin.x, other.pmin.x),
                partial_max(self.pmin.y, other.pmin.y),
                partial_max(self.pmin.z, other.pmin.z),
            ),
            pmax: Point3::new(
                partial_min(self.pmax.x, other.pmax.x),
                partial_min(self.pmax.y, other.pmax.y),
                partial_min(self.pmax.z, other.pmax.z),
            ),
        };
        if ret.pmax.x.lt(&ret.pmin.x) || ret.pmax.y.lt(&ret.pmin.y) || ret.pmax.z.lt(&ret.pmin.z) {
            None
        } else {
            Some(ret)
        }
    }

    /// Return if two bounding boxes overlap.
    pub fn overlap(&self, other: &Self) -> (r: bool)
        ensures
            r == self@.overlaps(other@),
    {
        (other.pmin.x.le(&self.pmax.x) && self.pmin.x.le(&other.pmax.x))
            && (other.pmin.y.le(&self.pmax.y) && self.pmin.y.le(&other.pmax.y))
            && (other.pmin.z.le(&self.pmax.z) && self.pmin.z.le(&other.pmax.z))
    }

    /// Return if `self` contains `p`.
    pub fn contain(&self, p: Point3<T>) -> (r: bool)
        ensures
            r == self@.contains(p@),
    {
        (p.x.le(&self.pmax.x) && self.pmin.x.le(&p.x))
            && (p.y.le(&self.pmax.y) && self.pmin.y.le(&p.y))
            && (p.z.le(&self.pmax.z) && self.pmin.z.le(&p.z))
    }

    /// Return if `self` contains `p`, excluding the case when `p` lies on
    /// the greater boundaries.
    pub fn contain_lb(&self, p: Point3<T>) -> (r: bool)
        ensures
            r == self@.contains_lb(p@),
    {
        (p.x.lt(&self.pmax.x) && self.pmin.x.le(&p.x))
            && (p.y.lt(&self.pmax.y) && self.pmin.y.le(&p.y))
            && (p.z.lt(&self.pmax.z) && self.pmin.z.le(&p.z))
    }

    /// Expand each boundary by `delta`. Note that `delta` can be negative.
    pub fn expand_by(&self, delta: T) -> (r: Self)
        requires
            fits::<T>(-delta.as_int()),
            fits::<T>(self.pmin.x.as_int() - delta.as_int()),
            fits::<T>(self.pmin.y.as_int() - delta.as_int()),
            fits::<T>(self.pmin.z.as_int() - delta.as_int()),
            fits::<T>(self.pmax.x.as_int() + delta.as_int()),
            fits::<T>(self.pmax.y.as_int() + delta.as_int()),
            fits::<T>(self.pmax.z.as_int() + delta.as_int()),
        ensures
            r@ == self@.expanded(delta.as_int()),
    {
        let neg = delta.neg();
        BBox3 {
            pmin: Point3::new(self.pmin.x.add(neg), self.pmin.y.add(neg), self.pmin.z.add(neg)),
            pmax: Point3::new(self.pmax.x.add(delta), self.pmax.y.add(delta), self.pmax.z.add(delta)),
        }
    }

    /// Return the diagonal vector, from `pmin` to `pmax`.
    pub fn diagonal(&self) -> (r: Vector3<T>)
        requires
            fits::<T>(self@.diagonal().0),
            fits::<T>(self@.diagonal().1),
            fits::<T>(self@.diagonal().2),
        ensures
            r@ == self@.diagonal(),
    {
        Vector3::new(
            self.pmax.x.sub(self.pmin.x),
            self.pmax.y.sub(self.pmin.y),
            self.pmax.z.sub(self.pmin.z),
        )
    }

    /// Return the surface area of the bounding box.
    pub fn surface_area(&self) -> (r: T)
        requires
            fits::<T>(self@.diagonal().0),
            fits::<T>(self@.diagonal().1),
            fits::<T>(self@.diagonal().2),
            fits::<T>(self@.surface_area()),
        ensures
            r.as_int() == self@.surface_area(),
    {
        let mut dx = self.pmax.x.sub(self.pmin.x);
        let mut dy = self.pmax.y.sub(self.pmin.y);
        let mut dz = self.pmax.z.sub(self.pmin.z);
        let zero = T::zero();
        if dx.lt(&zero) {
            dx = zero;
        }
        if dy.lt(&zero) {
            dy = zero;
        }
        if dz.lt(&zero) {
            dz = zero;
        }
        proof {
            T::lemma_range(zero, zero);
        }
        let two = T::one().add(T::one());
        let ghost (x, y, z) = (dx.as_int(), dy.as_int(), dz.as_int());
        assert(0 <= x * y && 0 <= x * z && 0 <= y * z) by (nonlinear_arith)
            requires
                0 <= x && 0 <= y && 0 <= z,
        ;
        let xy = dx.mul(dy);
        let xz = dx.mul(dz);
        let yz = dy.mul(dz);
        two.mul(xy.add(xz).add(yz))
    }

    /// Return the volume of the bounding box.
    pub fn volume(&self) -> (r: T)
        requires
            fits::<T>(self@.diagonal().0),
            fits::<T>(self@.diagonal().1),
            fits::<T>(self@.diagonal().2),
            fits::<T>(self@.volume()),
        ensures
            r.as_int() == self@.volume(),
    {
        let dx = self.pmax.x.sub(self.pmin.x);
        let dy = self.pmax.y.sub(self.pmin.y);
        let dz = self.pmax.z.sub(self.pmin.z);
        let zero = T::zero();
        if dx.le(&zero) || dy.le(&zero) || dz.le(&zero) {
            zero
        } else {
            let ghost (x, y, z) = (dx.as_int(), dy.as_int(), dz.as_int());
            assert(0 < x * y <= x * y * z) by (nonlinear_arith)
                requires
                    0 < x && 0 < y && 0 < z,
            ;
            proof {
                T::lemma_range(zero, zero);
            }
            let xy = dx.mul(dy);
            xy.mul(dz)
        }
    }

    /// Returns the index of the axis along which the bounding
    /// box has maximum extent.
    pub fn max_extent(&self) -> (r: usize)
        requires
            fits::<T>(self@.diagonal().0),
            fits::<T>(self@.diagonal().1),
            fits::<T>(self@.diagonal().2),
        ensures
            r == self@.max_extent(),
    {
        let d = self.diagonal();
        if d.y.lt(&d.x) && d.z.lt(&d.x) {
            0usize
        } else if d.z.lt(&d.y) {
            1usize
        } else {
            2usize
        }
    }

    /// Casting to another type of bbox.
    pub fn cast<R: Coord>(&self) -> (r: BBox3<R>)
        requires
            fits::<R>(self.pmin.x.as_int()),
            fits::<R>(self.pmin.y.as_int()),
            fits::<R>(self.pmin.z.as_int()),
            fits::<R>(self.pmax.x.as_int()),
            fits::<R>(self.pmax.y.as_int()),
            fits::<R>(self.pmax.z.as_int()),
        ensures
            r@ == self@,
    {
        BBox3 { pmin: self.pmin.cast(), pmax: self.pmax.cast() }
    }
}

/// Iterator over the integer points of a `BBox2<isize>`, `pmax` excluded,
/// row by row.
pub struct BBox2iIter {
    ix: isize,
    iy: isize,
    nx: isize,
    ny: isize,
    nx_start: isize,
}

impl View for BBox2iIter {
    type V = RowScan;

    closed spec fn view(&self) -> RowScan {
        RowScan {
            x: self.ix as int,
            y: self.iy as int,
            x_end: self.nx as int,
            y_end: self.ny as int,
            x_start: self.nx_start as int,
        }
    }
}

/// The integer pair that an optional point stands for.
pub open spec fn opt_point_view(p: Option<Point2<isize>>) -> Option<(int, int)> {
    match p {
        Some(q) => Some(q@),
        None => None,
    }
}

impl BBox2iIter {
    /// The next point of the scan.
    pub fn next(&mut self) -> (r: Option<Point2<isize>>)
        ensures
            (opt_point_view(r), final(self)@) == old(self)@.step(),
    {
        while self.iy < self.ny
            invariant
                self@.x_end == old(self)@.x_end,
                self@.y_end == old(self)@.y_end,
                self@.x_start == old(self)@.x_start,
                self@ == old(self)@ || {
                    &&& self@.x == self@.x_start
                    &&& old(self)@.y < self@.y <= self@.y_end
                    &&& old(self)@.x >= old(self)@.x_end
                    &&& (self@.y == old(self)@.y + 1 || self@.x_start >= self@.x_end)
                },
                old(self)@.y >= old(self)@.y_end ==> self@ == old(self)@,
            decreases self.ny - self.iy,
        {
            if self.ix < self.nx {
                let ix = self.ix;
                self.ix = self.ix + 1;
                return Some(Point2::new(ix, self.iy));
            } else {
                self.iy = self.iy + 1;
                self.ix = self.nx_start;
            }
        }
        None
    }
}

impl BBox2<isize> {
    /// Iterate over the integer points `p` with `pmin <= p < pmax`.
    pub fn into_iter(self) -> (r: BBox2iIter)
        ensures
            r@ == RowScan::over(self@),
    {
        BBox2iIter {
            ix: self.pmin.x,
            iy: self.pmin.y,
            nx: self.pmax.x,
            ny: self.pmax.y,
            nx_start: self.pmin.x,
        }
    }
}

} // verus!
