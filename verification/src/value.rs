//! Accumulator types for histogram bins.
//!
//! Beyond plain counts, a bin can keep running sums that later yield a
//! mean or a variance estimate.  The accumulators hold exact integer
//! state; callers derive floating-point estimates from the accessors.

use vstd::prelude::*;

pub mod mean;
pub mod sum;
pub mod weighted;
pub mod weightedmean;
pub mod weightedsum;

pub use mean::Mean;
pub use sum::Sum;
pub use weighted::Weighted;
pub use weightedmean::WeightedMean;
pub use weightedsum::WeightedSum;

verus! {

/// The product of two values of a 64-bit integer type always fits in a
/// 128-bit integer.
pub(crate) proof fn lemma_i64_mul_fits_i128(a: int, b: int)
    requires
        i64::MIN as int <= a <= i64::MAX as int,
        i64::MIN as int <= b <= i64::MAX as int,
    ensures
        i128::MIN as int <= a * b <= i128::MAX as int,
{
    assert(i128::MIN as int <= a * b <= i128::MAX as int) by (nonlinear_arith)
        requires
            i64::MIN as int <= a <= i64::MAX as int,
            i64::MIN as int <= b <= i64::MAX as int,
    ;
}

} // verus!
