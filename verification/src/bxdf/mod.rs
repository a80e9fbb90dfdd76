//! Bxdf kinds, and the fresnel models that need no arithmetic.

use vstd::prelude::*;

pub mod fresnel;

verus! {

/// The bxdf reflects.
pub const BXDF_REFLECTION: u32 = 0x01;

/// The bxdf transmits.
pub const BXDF_TRANSMISSION: u32 = 0x02;

/// The bxdf is diffuse.
pub const BXDF_DIFFUSE: u32 = 0x04;

/// The bxdf is glossy.
pub const BXDF_GLOSSY: u32 = 0x08;

/// The bxdf is specular.
pub const BXDF_SPECULAR: u32 = 0x10;

/// Every bxdf kind.
pub const BXDF_ALL: u32 = 0x1f;

/// A set of the bxdf kinds above.
#[derive(Clone, Copy, Debug, PartialEq, Eq, Hash)]
pub struct BxdfType {
    bits: u32,
}

impl View for BxdfType {
    type V = u32;

    closed spec fn view(&self) -> u32 {
        self.bits
    }
}

impl BxdfType {
    /// The kinds set in `bits`, other bits dropped.
    pub fn from_bits_truncate(bits: u32) -> (r: BxdfType)
        ensures
            r@ == bits & BXDF_ALL,
    {
        BxdfType { bits: bits & BXDF_ALL }
    }

    /// The set with no kinds.
    pub fn empty() -> (r: BxdfType)
        ensures
            r@ == 0,
    {
        BxdfType { bits: 0 }
    }

    /// The set of every kind.
    pub fn all() -> (r: BxdfType)
        ensures
            r@ == BXDF_ALL,
    {
        BxdfType { bits: BXDF_ALL }
    }

    /// The kinds set in `bits`, `None` when `bits` holds an unknown bit.
    pub fn from_bits(bits: u32) -> (r: Option<BxdfType>)
        ensures
            r is Some <==> bits & !BXDF_ALL == 0,
            r matches Some(f) ==> f@ == bits,
    {
        if bits & !BXDF_ALL == 0 {
            Some(BxdfType { bits })
        } else {
            None
        }
    }

    /// Whether no kind is set.
    pub fn is_empty(&self) -> (r: bool)
        ensures
            r == (self@ == 0),
    {
        self.bits == 0
    }

    /// Whether every kind is set.
    pub fn is_all(&self) -> (r: bool)
        ensures
            r == (self@ == BXDF_ALL),
    {
        self.bits == BXDF_ALL
    }

    /// Whether some kind is set in both.
    pub fn intersects(self, other: BxdfType) -> (r: bool)
        ensures
            r == (self@ & other@ != 0),
    {
        (self.bits & other.bits) != 0
    }

    /// The kinds set in both.
    pub fn intersection(self, other: BxdfType) -> (r: BxdfType)
        ensures
            r@ == self@ & other@,
    {
        BxdfType { bits: self.bits & other.bits }
    }

    /// Set the kinds of `other`.
    pub fn insert(&mut self, other: BxdfType)
        ensures
            final(self)@ == old(self)@ | other@,
    {
        self.bits = self.bits | other.bits;
    }

    /// Clear the kinds of `other`.
    pub fn remove(&mut self, other: BxdfType)
        ensures
            final(self)@ == old(self)@ & !other@,
    {
        self.bits = self.bits & !other.bits;
    }

    /// The kinds set in `self` and not in `other`.
    pub fn difference(self, other: BxdfType) -> (r: BxdfType)
        ensures
            r@ == self@ & !other@,
    {
        BxdfType { bits: self.bits & !other.bits }
    }

    /// The kinds set in exactly one of the two.
    pub fn symmetric_difference(self, other: BxdfType) -> (r: BxdfType)
        ensures
            r@ == self@ ^ other@,
    {
        BxdfType { bits: self.bits ^ other.bits }
    }

    /// The kinds not set in `self`.
    pub fn complement(self) -> (r: BxdfType)
        ensures
            r@ == !self@ & BXDF_ALL,
    {
        BxdfType { bits: !self.bits & BXDF_ALL }
    }

    /// Flip the kinds of `other`.
    pub fn toggle(&mut self, other: BxdfType)
        ensures
            final(self)@ == old(self)@ ^ other@,
    {
        self.bits = self.bits ^ other.bits;
    }

    /// The kinds as bits.
    pub fn bits(&self) -> (r: u32)
        ensures
            r == self@,
    {
        self.bits
    }

    /// The kinds set in either.
    pub fn union(self, other: BxdfType) -> (r: BxdfType)
        ensures
            r@ == self@ | other@,
    {
        BxdfType { bits: self.bits | other.bits }
    }

    /// Whether every kind of `other` is set in `self`.
    pub fn contains(self, other: BxdfType) -> (r: bool)
        ensures
            r == (self@ & other@ == other@),
    {
        (self.bits & other.bits) == other.bits
    }
}

} // verus!
