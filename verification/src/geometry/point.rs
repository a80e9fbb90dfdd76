//! Points and vectors in two and three dimensions.

use vstd::prelude::*;
use super::coord::Coord;

verus! {

/// A point in two dimensions.
#[derive(Clone, Copy, Debug, PartialEq, Eq, Hash)]
pub struct Point2<T> {
    pub x: T,
    pub y: T,
}

/// A vector in two dimensions.
#[derive(Clone, Copy, Debug, PartialEq, Eq, Hash)]
pub struct Vector2<T> {
    pub x: T,
    pub y: T,
}

/// A point in three dimensions.
#[derive(Clone, Copy, Debug, PartialEq, Eq, Hash)]
pub struct Point3<T> {
    pub x: T,
    pub y: T,
    pub z: T,
}

/// A vector in three dimensions.
#[derive(Clone, Copy, Debug, PartialEq, Eq, Hash)]
pub struct Vector3<T> {
    pub x: T,
    pub y: T,
    pub z: T,
}

impl<T: Coord> View for Point2<T> {
    type V = (int, int);

    open spec fn view(&self) -> (int, int) {
        (self.x.as_int(), self.y.as_int())
    }
}

impl<T: Coord> View for Vector2<T> {
    type V = (int, int);

    open spec fn view(&self) -> (int, int) {
        (self.x.as_int(), self.y.as_int())
    }
}

impl<T: Coord> View for Point3<T> {
    type V = (int, int, int);

    open spec fn view(&self) -> (int, int, int) {
        (self.x.as_int(), self.y.as_int(), self.z.as_int())
    }
}

impl<T: Coord> View for Vector3<T> {
    type V = (int, int, int);

    open spec fn view(&self) -> (int, int, int) {
        (self.x.as_int(), self.y.as_int(), self.z.as_int())
    }
}

/// Whether an integer fits the coordinate type `T`.
pub open spec fn fits<T: Coord>(v: int) -> bool {
    T::lo() <= v <= T::hi()
}

impl<T> Point2<T> {
    /// Construction from the two coordinates.
    pub fn new(x: T, y: T) -> (r: Self)
        ensures
            r.x == x,
            r.y == y,
    {
        Point2 { x, y }
    }
}

impl<T> Vector2<T> {
    /// Construction from the two coordinates.
    pub fn new(x: T, y: T) -> (r: Self)
        ensures
            r.x == x,
            r.y == y,
    {
        Vector2 { x, y }
    }
}

impl<T> Point3<T> {
    /// Construction from the three coordinates.
    pub fn new(x: T, y: T, z: T) -> (r: Self)
        ensures
            r.x == x,
            r.y == y,
            r.z == z,
    {
        Point3 { x, y, z }
    }
}

impl<T> Vector3<T> {
    /// Construction from the three coordinates.
    pub fn new(x: T, y: T, z: T) -> (r: Self)
        ensures
            r.x == x,
            r.y == y,
            r.z == z,
    {
        Vector3 { x, y, z }
    }
}

impl<T: Coord> Point2<T> {
    /// The same point over another coordinate type.
    pub fn cast<R: Coord>(&self) -> (r: Point2<R>)
        requires
            fits::<R>(self.x.as_int()),
            fits::<R>(self.y.as_int()),
        ensures
            r@ == self@,
    {
        Point2 { x: R::from_i128(self.x.to_i128()), y: R::from_i128(self.y.to_i128()) }
    }
}

impl<T: Coord> Point3<T> {
    /// The same point over another coordinate type.
    pub fn cast<R: Coord>(&self) -> (r: Point3<R>)
        requires
            fits::<R>(self.x.as_int()),
            fits::<R>(self.y.as_int()),
            fits::<R>(self.z.as_int()),
        ensures
            r@ == self@,
    {
        Point3 {
            x: R::from_i128(self.x.to_i128()),
            y: R::from_i128(self.y.to_i128()),
            z: R::from_i128(self.z.to_i128()),
        }
    }
}

} // verus!
