//! Light flags.

use vstd::prelude::*;

verus! {

/// The light has a delta position distribution.
pub const LIGHT_DPOS: u32 = 0x1;

/// The light has a delta direction distribution.
pub const LIGHT_DDIR: u32 = 0x2;

/// The light is an area light.
pub const LIGHT_AREA: u32 = 0x4;

/// The light is infinitely far away.
pub const LIGHT_INFINITE: u32 = 0x8;

/// A set of the light flags above.
#[derive(Clone, Copy, Debug, PartialEq, Eq, Hash)]
pub struct LightFlag {
    bits: u32,
}

impl View for LightFlag {
    type V = u32;

    closed spec fn view(&self) -> u32 {
        self.bits
    }
}

impl LightFlag {
    /// The flags set in `bits`, other bits dropped.
    pub fn from_bits_truncate(bits: u32) -> (r: LightFlag)
        ensures
            r@ == bits & 0xf,
    {
        LightFlag { bits: bits & 0xf }
    }

    /// The set with no flags.
    pub fn empty() -> (r: LightFlag)
        ensures
            r@ == 0,
    {
        LightFlag { bits: 0 }
    }

    /// The set of every flag.
    pub fn all() -> (r: LightFlag)
        ensures
            r@ == 0xf,
    {
        LightFlag { bits: 0xf }
    }

    /// The flags set in `bits`, `None` when `bits` holds an unknown bit.
    pub fn from_bits(bits: u32) -> (r: Option<LightFlag>)
        ensures
            r is Some <==> bits & !0xf == 0,
            r matches Some(f) ==> f@ == bits,
    {
        if bits & !0xf == 0 {
            Some(LightFlag { bits })
        } else {
            None
        }
    }

    /// Whether no flag is set.
    pub fn is_empty(&self) -> (r: bool)
        ensures
            r == (self@ == 0),
    {
        self.bits == 0
    }

    /// Whether every flag is set.
    pub fn is_all(&self) -> (r: bool)
        ensures
            r == (self@ == 0xf),
    {
        self.bits == 0xf
    }

    /// Whether some flag is set in both.
    pub fn intersects(self, other: LightFlag) -> (r: bool)
        ensures
            r == (self@ & other@ != 0),
    {
        (self.bits & other.bits) != 0
    }

    /// The flags set in both.
    pub fn intersection(self, other: LightFlag) -> (r: LightFlag)
        ensures
            r@ == self@ & other@,
    {
        LightFlag { bits: self.bits & other.bits }
    }

    /// Set the flags of `other`.
    pub fn insert(&mut self, other: LightFlag)
        ensures
            final(self)@ == old(self)@ | other@,
    {
        self.bits = self.bits | other.bits;
    }

    /// Clear the flags of `other`.
    pub fn remove(&mut self, other: LightFlag)
        ensures
            final(self)@ == old(self)@ & !other@,
    {
        self.bits = self.bits & !other.bits;
    }

    /// The flags set in `self` and not in `other`.
    pub fn difference(self, other: LightFlag) -> (r: LightFlag)
        ensures
            r@ == self@ & !other@,
    {
        LightFlag { bits: self.bits & !other.bits }
    }

    /// The flags set in exactly one of the two.
    pub fn symmetric_difference(self, other: LightFlag) -> (r: LightFlag)
        ensures
            r@ == self@ ^ other@,
    {
        LightFlag { bits: self.bits ^ other.bits }
    }

    /// The flags not set in `self`.
    pub fn complement(self) -> (r: LightFlag)
        ensures
            r@ == !self@ & 0xf,
    {
        LightFlag { bits: !self.bits & 0xf }
    }

    /// Flip the flags of `other`.
    pub fn toggle(&mut self, other: LightFlag)
        ensures
            final(self)@ == old(self)@ ^ other@,
    {
        self.bits = self.bits ^ other.bits;
    }

    /// The flags as bits.
    pub fn bits(&self) -> (r: u32)
        ensures
            r == self@,
    {
        self.bits
    }

    /// The flags set in either.
    pub fn union(self, other: LightFlag) -> (r: LightFlag)
        ensures
            r@ == self@ | other@,
    {
        LightFlag { bits: self.bits | other.bits }
    }

    /// Whether every flag of `other` is set in `self`.
    pub fn contains(self, other: LightFlag) -> (r: bool)
        ensures
            r == (self@ & other@ == other@),
    {
        (self.bits & other.bits) == other.bits
    }

    /// Test if the light is delta light: a delta position or a delta direction.
    pub fn is_delta(self) -> (r: bool)
        ensures
            r == (self@ & LIGHT_DPOS == LIGHT_DPOS || self@ & LIGHT_DDIR == LIGHT_DDIR),
    {
        (self.bits & LIGHT_DPOS) == LIGHT_DPOS || (self.bits & LIGHT_DDIR) == LIGHT_DDIR
    }
}

} // verus!
