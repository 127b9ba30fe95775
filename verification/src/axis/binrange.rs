//! Older names for the bin interval types.

use vstd::prelude::*;

verus! {

/// The interval of coordinates covered by one bin of a continuous axis;
/// another name for [`crate::axis::BinInterval`].
pub type ContinuousBinRange<T> = crate::axis::BinInterval<T>;

/// The value, or set of values, covered by one bin of a discrete axis;
/// another name for [`crate::axis::SingleValueBinInterval`].
pub type SingleValuedBinRange<T> = crate::axis::SingleValueBinInterval<T>;

} // verus!
