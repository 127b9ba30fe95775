//! A bin value that accumulates the state needed for a running mean.

use vstd::prelude::*;

use crate::histogram::FillWith;
use crate::histogram::Value;

verus! {

/// The total of a sequence of data.
pub open spec fn sum_data(s: Seq<i64>) -> int
    decreases s.len(),
{
    if s.len() == 0 {
        0
    } else {
        sum_data(s.drop_last()) + s.last()
    }
}

/// The total of the squares of a sequence of data.
pub open spec fn sum_squares(s: Seq<i64>) -> int
    decreases s.len(),
{
    if s.len() == 0 {
        0
    } else {
        sum_squares(s.drop_last()) + s.last() * s.last()
    }
}

/// A sum of squares is never negative.
pub proof fn lemma_sum_squares_nonneg(s: Seq<i64>)
    ensures
        sum_squares(s) >= 0,
    decreases s.len(),
{
    if s.len() > 0 {
        lemma_sum_squares_nonneg(s.drop_last());
        assert(s.last() * s.last() >= 0) by (nonlinear_arith);
    }
}

/// A bin value holding the running state of a mean: the sum of the
/// filled data, the sum of their squares, and the fill count.  The mean
/// is the sum over the count; callers derive fractional estimates from
/// the accessors.
#[derive(Copy, Clone, PartialEq, Eq, Structural, Debug, Hash)]
pub struct Mean {
    /// The accumulated sum of data.
    pub sumw: i64,
    /// The accumulated sum of squared data.
    pub sumw2: i64,
    /// The number of fills.
    pub count: u64,
}

impl Mean {
    /// A mean accumulator filled with the given data, in order.
    pub fn new(values: Vec<i64>) -> (r: Self)
        requires
            values@.len() <= u64::MAX,
            forall|k: int|
                0 <= k <= values@.len() ==> i64::MIN <= sum_data(values@.take(k)) <= i64::MAX
                    && sum_squares(values@.take(k)) <= i64::MAX,
        ensures
            r.sumw == sum_data(values@),
            r.sumw2 == sum_squares(values@),
            r.count == values@.len(),
    {
        let mut r = Mean { sumw: 0, sumw2: 0, count: 0 };
        let mut i: usize = 0;
        proof {
            assert(values@.take(0) =~= Seq::<i64>::empty());
        }
        while i < values.len()
            invariant
                i <= values@.len(),
                values@.len() <= u64::MAX,
                forall|k: int|
                    0 <= k <= values@.len() ==> i64::MIN <= sum_data(values@.take(k)) <= i64::MAX
                        && sum_squares(values@.take(k)) <= i64::MAX,
                r.sumw == sum_data(values@.take(i as int)),
                r.sumw2 == sum_squares(values@.take(i as int)),
                r.count == i,
            decreases values@.len() - i,
        {
            proof {
                assert(values@.take(i as int + 1).drop_last() =~= values@.take(i as int));
                assert(values@.take(i as int + 1).last() == values@[i as int]);
                lemma_sum_squares_nonneg(values@.take(i as int + 1));
            }
            r.fill_with(values[i]);
            i = i + 1;
        }
        proof {
            assert(values@.take(values@.len() as int) =~= values@);
        }
        r
    }

    /// The accumulated sum of the filled data.
    pub fn sum(&self) -> (r: i64)
        ensures
            r == self.sumw,
    {
        self.sumw
    }

    /// The accumulated sum of the squares of the filled data.
    pub fn sum_of_squares(&self) -> (r: i64)
        ensures
            r == self.sumw2,
    {
        self.sumw2
    }

    /// The number of times this accumulator has been filled.
    pub fn num_samples(&self) -> (r: u64)
        ensures
            r == self.count,
    {
        self.count
    }
}

impl Value for Mean {
    open spec fn spec_default() -> Self {
        Mean { sumw: 0, sumw2: 0, count: 0 }
    }

    fn default_value() -> (r: Self) {
        Mean { sumw: 0, sumw2: 0, count: 0 }
    }

    fn clone_value(&self) -> (r: Self) {
        *self
    }
}

impl FillWith<i64> for Mean {
    open spec fn spec_can_fill_with(&self, data: i64) -> bool {
        &&& i64::MIN <= self.sumw as int + data as int <= i64::MAX
        &&& i64::MIN <= self.sumw2 as int + data as int * data as int <= i64::MAX
        &&& self.count < u64::MAX
    }

    open spec fn spec_fill_with(&self, data: i64) -> Self {
        Mean {
            sumw: (self.sumw as int + data as int) as i64,
            sumw2: (self.sumw2 as int + data as int * data as int) as i64,
            count: (self.count + 1) as u64,
        }
    }

    fn fill_with(&mut self, data: i64) {
        self.sumw = self.sumw + data;
        proof {
            crate::value::lemma_i64_mul_fits_i128(data as int, data as int);
        }
        let square = (data as i128) * (data as i128);
        self.sumw2 = ((self.sumw2 as i128) + square) as i64;
        self.count = self.count + 1;
    }
}

} // verus!
