//! A bin value that counts unweighted fills.

use vstd::prelude::*;

use crate::histogram::Fill;
use crate::histogram::FillWith;
use crate::histogram::Value;

verus! {

/// A bin value holding a plain count of fills.  Its variance estimate
/// assumes Poisson statistics, so it equals the count itself.
#[derive(Copy, Clone, PartialEq, Eq, Structural, Debug, Hash)]
pub struct Sum {
    /// The accumulated count.
    pub sum: i64,
}

impl Sum {
    /// An unfilled, zero-valued sum.
    pub fn new() -> (r: Self)
        ensures
            r.sum == 0,
    {
        Sum { sum: 0 }
    }

    /// The current value of the sum.
    pub fn get(&self) -> (r: i64)
        ensures
            r == self.sum,
    {
        self.sum
    }

    /// The current value of the sum.
    pub fn sum(&self) -> (r: i64)
        ensures
            r == self.sum,
    {
        self.sum
    }

    /// The variance estimate of the sum, assuming Poisson statistics:
    /// the sum itself.
    pub fn variance(&self) -> (r: i64)
        ensures
            r == self.sum,
    {
        self.sum
    }
}

impl Value for Sum {
    open spec fn spec_default() -> Self {
        Sum { sum: 0 }
    }

    fn default_value() -> (r: Self) {
        Sum { sum: 0 }
    }

    fn clone_value(&self) -> (r: Self) {
        *self
    }
}

impl Fill for Sum {
    open spec fn spec_can_fill(&self) -> bool {
        self.sum < i64::MAX
    }

    open spec fn spec_fill(&self) -> Self {
        Sum { sum: (self.sum + 1) as i64 }
    }

    fn fill(&mut self) {
        self.sum = self.sum + 1;
    }
}

impl FillWith<i64> for Sum {
    open spec fn spec_can_fill_with(&self, data: i64) -> bool {
        i64::MIN <= self.sum as int + data as int <= i64::MAX
    }

    open spec fn spec_fill_with(&self, data: i64) -> Self {
        Sum { sum: (self.sum as int + data as int) as i64 }
    }

    fn fill_with(&mut self, data: i64) {
        self.sum = self.sum + data;
    }
}

} // verus!
