//! A datum paired with a weight.

use vstd::prelude::*;

verus! {

/// A datum together with the weight attached to it, for fills that carry
/// both.
#[derive(Copy, Clone, PartialEq, Eq, Debug, Hash)]
pub struct Weighted<T, W> {
    /// The datum being accumulated.
    pub value: T,
    /// The weight attached to the datum.
    pub weight: W,
}

impl<T, W> Weighted<T, W> {
    /// Pair a datum with its weight.
    pub fn new(value: T, weight: W) -> (r: Self)
        ensures
            r == (Weighted { value, weight }),
    {
        Weighted { value, weight }
    }
}

} // verus!
