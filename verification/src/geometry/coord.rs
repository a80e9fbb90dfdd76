//! The scalar types that points, vectors and bounding boxes are built from.

use vstd::prelude::*;
use vstd::math::{max, min};

verus! {

/// A machine integer used as a coordinate.
///
/// Every operation is stated over the mathematical value `as_int`, and an
/// operation whose result would leave the range of the type is ruled out by
/// its `requires`.
pub trait Coord: Copy + Sized {
    /// The mathematical value of the coordinate.
    spec fn as_int(&self) -> int;

    /// The smallest value of the type.
    spec fn lo() -> int;

    /// The largest value of the type.
    spec fn hi() -> int;

    /// Values lie in the range of the type, and a value is fixed by its integer.
    proof fn lemma_range(a: Self, b: Self)
        ensures
            Self::lo() <= a.as_int() <= Self::hi(),
            Self::lo() <= 0,
            0x7f <= Self::hi(),
            a.as_int() == b.as_int() ==> a == b,
    ;

    /// Zero.
    fn zero() -> (r: Self)
        ensures
            r.as_int() == 0,
    ;

    /// One.
    fn one() -> (r: Self)
        ensures
            r.as_int() == 1,
    ;

    /// `self <= other`.
    fn le(&self, other: &Self) -> (r: bool)
        ensures
            r == (self.as_int() <= other.as_int()),
    ;

    /// `self < other`.
    fn lt(&self, other: &Self) -> (r: bool)
        ensures
            r == (self.as_int() < other.as_int()),
    ;

    /// `self + other`.
    fn add(self, other: Self) -> (r: Self)
        requires
            Self::lo() <= self.as_int() + other.as_int() <= Self::hi(),
        ensures
            r.as_int() == self.as_int() + other.as_int(),
    ;

    /// `self - other`.
    fn sub(self, other: Self) -> (r: Self)
        requires
            Self::lo() <= self.as_int() - other.as_int() <= Self::hi(),
        ensures
            r.as_int() == self.as_int() - other.as_int(),
    ;

    /// `self * other`.
    fn mul(self, other: Self) -> (r: Self)
        requires
            Self::lo() <= self.as_int() * other.as_int() <= Self::hi(),
        ensures
            r.as_int() == self.as_int() * other.as_int(),
    ;

    /// `-self`.
    fn neg(self) -> (r: Self)
        requires
            Self::lo() <= -self.as_int() <= Self::hi(),
        ensures
            r.as_int() == -self.as_int(),
    ;

    /// The coordinate holding an integer that fits the type.
    fn from_i128(v: i128) -> (r: Self)
        requires
            Self::lo() <= v <= Self::hi(),
        ensures
            r.as_int() == v,
    ;

    /// The coordinate as a 128-bit integer.
    fn to_i128(&self) -> (r: i128)
        ensures
            r == self.as_int(),
    ;
}

impl Coord for i8 {
    open spec fn as_int(&self) -> int {
        *self as int
    }

    open spec fn lo() -> int {
        i8::MIN as int
    }

    open spec fn hi() -> int {
        i8::MAX as int
    }

    proof fn lemma_range(a: Self, b: Self) {
    }

    fn zero() -> (r: Self) {
        0
    }

    fn one() -> (r: Self) {
        1
    }

    fn le(&self, other: &Self) -> (r: bool) {
        *self <= *other
    }

    fn lt(&self, other: &Self) -> (r: bool) {
        *self < *other
    }

    fn add(self, other: Self) -> (r: Self) {
        self + other
    }

    fn sub(self, other: Self) -> (r: Self) {
        self - other
    }

    fn mul(self, other: Self) -> (r: Self) {
        self * other
    }

    fn neg(self) -> (r: Self) {
        -self
    }

    fn from_i128(v: i128) -> (r: Self) {
        v as i8
    }

    fn to_i128(&self) -> (r: i128) {
        *self as i128
    }
}

impl Coord for i16 {
    open spec fn as_int(&self) -> int {
        *self as int
    }

    open spec fn lo() -> int {
        i16::MIN as int
    }

    open spec fn hi() -> int {
        i16::MAX as int
    }

    proof fn lemma_range(a: Self, b: Self) {
    }

    fn zero() -> (r: Self) {
        0
    }

    fn one() -> (r: Self) {
        1
    }

    fn le(&self, other: &Self) -> (r: bool) {
        *self <= *other
    }

    fn lt(&self, other: &Self) -> (r: bool) {
        *self < *other
    }

    fn add(self, other: Self) -> (r: Self) {
        self + other
    }

    fn sub(self, other: Self) -> (r: Self) {
        self - other
    }

    fn mul(self, other: Self) -> (r: Self) {
        self * other
    }

    fn neg(self) -> (r: Self) {
        -self
    }

    fn from_i128(v: i128) -> (r: Self) {
        v as i16
    }

    fn to_i128(&self) -> (r: i128) {
        *self as i128
    }
}

impl Coord for u8 {
    open spec fn as_int(&self) -> int {
        *self as int
    }

    open spec fn lo() -> int {
        u8::MIN as int
    }

    open spec fn hi() -> int {
        u8::MAX as int
    }

    proof fn lemma_range(a: Self, b: Self) {
    }

    fn zero() -> (r: Self) {
        0
    }

    fn one() -> (r: Self) {
        1
    }

    fn le(&self, other: &Self) -> (r: bool) {
        *self <= *other
    }

    fn lt(&self, other: &Self) -> (r: bool) {
        *self < *other
    }

    fn add(self, other: Self) -> (r: Self) {
        self + other
    }

    fn sub(self, other: Self) -> (r: Self) {
        self - other
    }

    fn mul(self, other: Self) -> (r: Self) {
        self * other
    }

    fn neg(self) -> (r: Self) {
        0u8 - self
    }

    fn from_i128(v: i128) -> (r: Self) {
        v as u8
    }

    fn to_i128(&self) -> (r: i128) {
        *self as i128
    }
}

impl Coord for u16 {
    open spec fn as_int(&self) -> int {
        *self as int
    }

    open spec fn lo() -> int {
        u16::MIN as int
    }

    open spec fn hi() -> int {
        u16::MAX as int
    }

    proof fn lemma_range(a: Self, b: Self) {
    }

    fn zero() -> (r: Self) {
        0
    }

    fn one() -> (r: Self) {
        1
    }

    fn le(&self, other: &Self) -> (r: bool) {
        *self <= *other
    }

    fn lt(&self, other: &Self) -> (r: bool) {
        *self < *other
    }

    fn add(self, other: Self) -> (r: Self) {
        self + other
    }

    fn sub(self, other: Self) -> (r: Self) {
        self - other
    }

    fn mul(self, other: Self) -> (r: Self) {
        self * other
    }

    fn neg(self) -> (r: Self) {
        0u16 - self
    }

    fn from_i128(v: i128) -> (r: Self) {
        v as u16
    }

    fn to_i128(&self) -> (r: i128) {
        *self as i128
    }
}

impl Coord for i32 {
    open spec fn as_int(&self) -> int {
        *self as int
    }

    open spec fn lo() -> int {
        i32::MIN as int
    }

    open spec fn hi() -> int {
        i32::MAX as int
    }

    proof fn lemma_range(a: Self, b: Self) {
    }

    fn zero() -> (r: Self) {
        0
    }

    fn one() -> (r: Self) {
        1
    }

    fn le(&self, other: &Self) -> (r: bool) {
        *self <= *other
    }

    fn lt(&self, other: &Self) -> (r: bool) {
        *self < *other
    }

    fn add(self, other: Self) -> (r: Self) {
        self + other
    }

    fn sub(self, other: Self) -> (r: Self) {
        self - other
    }

    fn mul(self, other: Self) -> (r: Self) {
        self * other
    }

    fn neg(self) -> (r: Self) {
        -self
    }

    fn from_i128(v: i128) -> (r: Self) {
        v as i32
    }

    fn to_i128(&self) -> (r: i128) {
        *self as i128
    }
}

impl Coord for i64 {
    open spec fn as_int(&self) -> int {
        *self as int
    }

    open spec fn lo() -> int {
        i64::MIN as int
    }

    open spec fn hi() -> int {
        i64::MAX as int
    }

    proof fn lemma_range(a: Self, b: Self) {
    }

    fn zero() -> (r: Self) {
        0
    }

    fn one() -> (r: Self) {
        1
    }

    fn le(&self, other: &Self) -> (r: bool) {
        *self <= *other
    }

    fn lt(&self, other: &Self) -> (r: bool) {
        *self < *other
    }

    fn add(self, other: Self) -> (r: Self) {
        self + other
    }

    fn sub(self, other: Self) -> (r: Self) {
        self - other
    }

    fn mul(self, other: Self) -> (r: Self) {
        self * other
    }

    fn neg(self) -> (r: Self) {
        -self
    }

    fn from_i128(v: i128) -> (r: Self) {
        v as i64
    }

    fn to_i128(&self) -> (r: i128) {
        *self as i128
    }
}

impl Coord for isize {
    open spec fn as_int(&self) -> int {
        *self as int
    }

    open spec fn lo() -> int {
        isize::MIN as int
    }

    open spec fn hi() -> int {
        isize::MAX as int
    }

    proof fn lemma_range(a: Self, b: Self) {
    }

    fn zero() -> (r: Self) {
        0
    }

    fn one() -> (r: Self) {
        1
    }

    fn le(&self, other: &Self) -> (r: bool) {
        *self <= *other
    }

    fn lt(&self, other: &Self) -> (r: bool) {
        *self < *other
    }

    fn add(self, other: Self) -> (r: Self) {
        self + other
    }

    fn sub(self, other: Self) -> (r: Self) {
        self - other
    }

    fn mul(self, other: Self) -> (r: Self) {
        self * other
    }

    fn neg(self) -> (r: Self) {
        -self
    }

    fn from_i128(v: i128) -> (r: Self) {
        v as isize
    }

    fn to_i128(&self) -> (r: i128) {
        *self as i128
    }
}

impl Coord for u32 {
    open spec fn as_int(&self) -> int {
        *self as int
    }

    open spec fn lo() -> int {
        u32::MIN as int
    }

    open spec fn hi() -> int {
        u32::MAX as int
    }

    proof fn lemma_range(a: Self, b: Self) {
    }

    fn zero() -> (r: Self) {
        0
    }

    fn one() -> (r: Self) {
        1
    }

    fn le(&self, other: &Self) -> (r: bool) {
        *self <= *other
    }

    fn lt(&self, other: &Self) -> (r: bool) {
        *self < *other
    }

    fn add(self, other: Self) -> (r: Self) {
        self + other
    }

    fn sub(self, other: Self) -> (r: Self) {
        self - other
    }

    fn mul(self, other: Self) -> (r: Self) {
        self * other
    }

    fn neg(self) -> (r: Self) {
        0u32 - self
    }

    fn from_i128(v: i128) -> (r: Self) {
        v as u32
    }

    fn to_i128(&self) -> (r: i128) {
        *self as i128
    }
}

impl Coord for u64 {
    open spec fn as_int(&self) -> int {
        *self as int
    }

    open spec fn lo() -> int {
        u64::MIN as int
    }

    open spec fn hi() -> int {
        u64::MAX as int
    }

    proof fn lemma_range(a: Self, b: Self) {
    }

    fn zero() -> (r: Self) {
        0
    }

    fn one() -> (r: Self) {
        1
    }

    fn le(&self, other: &Self) -> (r: bool) {
        *self <= *other
    }

    fn lt(&self, other: &Self) -> (r: bool) {
        *self < *other
    }

    fn add(self, other: Self) -> (r: Self) {
        self + other
    }

    fn sub(self, other: Self) -> (r: Self) {
        self - other
    }

    fn mul(self, other: Self) -> (r: Self) {
        self * other
    }

    fn neg(self) -> (r: Self) {
        0u64 - self
    }

    fn from_i128(v: i128) -> (r: Self) {
        v as u64
    }

    fn to_i128(&self) -> (r: i128) {
        *self as i128
    }
}

impl Coord for usize {
    open spec fn as_int(&self) -> int {
        *self as int
    }

    open spec fn lo() -> int {
        usize::MIN as int
    }

    open spec fn hi() -> int {
        usize::MAX as int
    }

    proof fn lemma_range(a: Self, b: Self) {
    }

    fn zero() -> (r: Self) {
        0
    }

    fn one() -> (r: Self) {
        1
    }

    fn le(&self, other: &Self) -> (r: bool) {
        *self <= *other
    }

    fn lt(&self, other: &Self) -> (r: bool) {
        *self < *other
    }

    fn add(self, other: Self) -> (r: Self) {
        self + other
    }

    fn sub(self, other: Self) -> (r: Self) {
        self - other
    }

    fn mul(self, other: Self) -> (r: Self) {
        self * other
    }

    fn neg(self) -> (r: Self) {
        0usize - self
    }

    fn from_i128(v: i128) -> (r: Self) {
        v as usize
    }

    fn to_i128(&self) -> (r: i128) {
        *self as i128
    }
}

/// The lesser of two coordinates.
pub fn partial_min<T: Coord>(a: T, b: T) -> (r: T)
    ensures
        r.as_int() == min(a.as_int(), b.as_int()),
{
    if a.lt(&b) {
        a
    } else {
        b
    }
}

/// The greater of two coordinates.
pub fn partial_max<T: Coord>(a: T, b: T) -> (r: T)
    ensures
        r.as_int() == max(a.as_int(), b.as_int()),
{
    if a.lt(&b) {
        b
    } else {
        a
    }
}

} // verus!
