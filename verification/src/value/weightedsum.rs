//! A bin value that tracks a weighted sum and its variance estimate.

use vstd::prelude::*;

use crate::histogram::Fill;
use crate::histogram::FillWith;
use crate::histogram::Value;

verus! {

/// A bin value holding a sum of fill weights and the sum of their
/// squares.  The sum of squares estimates the variance of the weighted
/// sum.
#[derive(Copy, Clone, PartialEq, Eq, Structural, Debug, Hash)]
pub struct WeightedSum {
    /// The accumulated sum of weights.
    pub sumw: i64,
    /// The accumulated sum of squared weights.
    pub sumw2: i64,
}

impl WeightedSum {
    /// An unfilled, zero-valued weighted sum.
    pub fn new() -> (r: Self)
        ensures
            r.sumw == 0,
            r.sumw2 == 0,
    {
        WeightedSum { sumw: 0, sumw2: 0 }
    }

    /// The current value of the weighted sum.
    pub fn get(&self) -> (r: i64)
        ensures
            r == self.sumw,
    {
        self.sumw
    }

    /// The current value of the weighted sum.
    pub fn sum(&self) -> (r: i64)
        ensures
            r == self.sumw,
    {
        self.sumw
    }

    /// The variance estimate of the weighted sum: the sum of squared
    /// weights.
    pub fn variance(&self) -> (r: i64)
        ensures
            r == self.sumw2,
    {
        self.sumw2
    }
}

impl Value for WeightedSum {
    open spec fn spec_default() -> Self {
        WeightedSum { sumw: 0, sumw2: 0 }
    }

    fn default_value() -> (r: Self) {
        WeightedSum { sumw: 0, sumw2: 0 }
    }

    fn clone_value(&self) -> (r: Self) {
        *self
    }
}

impl Fill for WeightedSum {
    open spec fn spec_can_fill(&self) -> bool {
        self.sumw < i64::MAX && self.sumw2 < i64::MAX
    }

    open spec fn spec_fill(&self) -> Self {
        WeightedSum { sumw: (self.sumw + 1) as i64, sumw2: (self.sumw2 + 1) as i64 }
    }

    fn fill(&mut self) {
        self.sumw = self.sumw + 1;
        self.sumw2 = self.sumw2 + 1;
    }
}

impl FillWith<i64> for WeightedSum {
    open spec fn spec_can_fill_with(&self, data: i64) -> bool {
        &&& i64::MIN <= self.sumw as int + data as int <= i64::MAX
        &&& i64::MIN <= self.sumw2 as int + data as int * data as int <= i64::MAX
    }

    open spec fn spec_fill_with(&self, data: i64) -> Self {
        WeightedSum {
            sumw: (self.sumw as int + data as int) as i64,
            sumw2: (self.sumw2 as int + data as int * data as int) as i64,
        }
    }

    fn fill_with(&mut self, data: i64) {
        self.sumw = self.sumw + data;
        proof {
            crate::value::lemma_i64_mul_fits_i128(data as int, data as int);
        }
        let square = (data as i128) * (data as i128);
        self.sumw2 = ((self.sumw2 as i128) + square) as i64;
    }
}

} // verus!
