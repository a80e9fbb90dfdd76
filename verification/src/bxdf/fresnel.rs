//! Fresnel models.

use vstd::prelude::*;

verus! {

/// The fresnel model that reflects everything.
#[derive(Clone, Copy, Debug, PartialEq, Eq)]
pub struct Noop;

} // verus!
