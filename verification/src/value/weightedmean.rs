//! A bin value that accumulates the state needed for a weighted mean.

use vstd::prelude::*;

use crate::histogram::FillWithWeighted;
use crate::histogram::Value;

verus! {

/// The total of `datum * weight` over a sequence of weighted data.
pub open spec fn sum_wt(s: Seq<(i64, i64)>) -> int
    decreases s.len(),
{
    if s.len() == 0 {
        0
    } else {
        sum_wt(s.drop_last()) + s.last().0 * s.last().1
    }
}

/// The total of `datum * datum * weight` over a sequence of weighted
/// data.
pub open spec fn sum_wt2(s: Seq<(i64, i64)>) -> int
    decreases s.len(),
{
    if s.len() == 0 {
        0
    } else {
        sum_wt2(s.drop_last()) + s.last().0 * s.last().0 * s.last().1
    }
}

/// The total of the weights of a sequence of weighted data.
pub open spec fn sum_w(s: Seq<(i64, i64)>) -> int
    decreases s.len(),
{
    if s.len() == 0 {
        0
    } else {
        sum_w(s.drop_last()) + s.last().1
    }
}

/// The total of the squared weights of a sequence of weighted data.
pub open spec fn sum_w2(s: Seq<(i64, i64)>) -> int
    decreases s.len(),
{
    if s.len() == 0 {
        0
    } else {
        sum_w2(s.drop_last()) + s.last().1 * s.last().1
    }
}

/// A bin value holding the running state of a weighted mean: the sums of
/// `datum * weight`, `datum * datum * weight`, the weights, and the
/// squared weights, plus the fill count.  The mean is the first sum over
/// the weight sum; callers derive fractional estimates from the
/// accessors.
#[derive(Copy, Clone, PartialEq, Eq, Structural, Debug, Hash)]
pub struct WeightedMean {
    /// The accumulated sum of `datum * weight`.
    pub sumwt: i64,
    /// The accumulated sum of `datum * datum * weight`.
    pub sumwt2: i64,
    /// The accumulated sum of weights.
    pub sumw: i64,
    /// The accumulated sum of squared weights.
    pub sumw2: i64,
    /// The number of fills.
    pub count: u64,
}

impl WeightedMean {
    /// A weighted-mean accumulator filled with the given pairs of datum
    /// and weight, in order.
    pub fn new(values: Vec<(i64, i64)>) -> (r: Self)
        requires
            values@.len() <= u64::MAX,
            forall|k: int| #![trigger values@.take(k)]
                0 <= k <= values@.len() ==> {
                    &&& i64::MIN <= sum_wt(values@.take(k)) <= i64::MAX
                    &&& i64::MIN <= sum_wt2(values@.take(k)) <= i64::MAX
                    &&& i64::MIN <= sum_w(values@.take(k)) <= i64::MAX
                    &&& i64::MIN <= sum_w2(values@.take(k)) <= i64::MAX
                },
        ensures
            r.sumwt == sum_wt(values@),
            r.sumwt2 == sum_wt2(values@),
            r.sumw == sum_w(values@),
            r.sumw2 == sum_w2(values@),
            r.count == values@.len(),
    {
        let mut r = WeightedMean { sumwt: 0, sumwt2: 0, sumw: 0, sumw2: 0, count: 0 };
        let mut i: usize = 0;
        proof {
            assert(values@.take(0) =~= Seq::<(i64, i64)>::empty());
        }
        while i < values.len()
            invariant
                i <= values@.len(),
                values@.len() <= u64::MAX,
                forall|k: int| #![trigger values@.take(k)]
                    0 <= k <= values@.len() ==> {
                        &&& i64::MIN <= sum_wt(values@.take(k)) <= i64::MAX
                        &&& i64::MIN <= sum_wt2(values@.take(k)) <= i64::MAX
                        &&& i64::MIN <= sum_w(values@.take(k)) <= i64::MAX
                        &&& i64::MIN <= sum_w2(values@.take(k)) <= i64::MAX
                    },
                r.sumwt == sum_wt(values@.take(i as int)),
                r.sumwt2 == sum_wt2(values@.take(i as int)),
                r.sumw == sum_w(values@.take(i as int)),
                r.sumw2 == sum_w2(values@.take(i as int)),
                r.count == i,
            decreases values@.len() - i,
        {
            proof {
                assert(values@.take(i as int + 1).drop_last() =~= values@.take(i as int));
                assert(values@.take(i as int + 1).last() == values@[i as int]);
            }
            let pair = values[i];
            r.fill_with_weighted(pair.0, pair.1);
            i = i + 1;
        }
        proof {
            assert(values@.take(values@.len() as int) =~= values@);
        }
        r
    }

    /// The accumulated sum of `datum * weight`.
    pub fn sum(&self) -> (r: i64)
        ensures
            r == self.sumwt,
    {
        self.sumwt
    }

    /// The accumulated sum of `datum * datum * weight`.
    pub fn sum_of_weighted_squares(&self) -> (r: i64)
        ensures
            r == self.sumwt2,
    {
        self.sumwt2
    }

    /// The accumulated sum of weights.
    pub fn sum_of_weights(&self) -> (r: i64)
        ensures
            r == self.sumw,
    {
        self.sumw
    }

    /// The accumulated sum of squared weights.
    pub fn sum_of_squared_weights(&self) -> (r: i64)
        ensures
            r == self.sumw2,
    {
        self.sumw2
    }

    /// The number of times this accumulator has been filled.
    pub fn num_samples(&self) -> (r: u64)
        ensures
            r == self.count,
    {
        self.count
    }
}

impl Value for WeightedMean {
    open spec fn spec_default() -> Self {
        WeightedMean { sumwt: 0, sumwt2: 0, sumw: 0, sumw2: 0, count: 0 }
    }

    fn default_value() -> (r: Self) {
        WeightedMean { sumwt: 0, sumwt2: 0, sumw: 0, sumw2: 0, count: 0 }
    }

    fn clone_value(&self) -> (r: Self) {
        *self
    }
}

impl FillWithWeighted<i64, i64> for WeightedMean {
    open spec fn spec_can_fill_with_weighted(&self, data: i64, weight: i64) -> bool {
        &&& i64::MIN <= self.sumwt as int + data as int * weight as int <= i64::MAX
        &&& i64::MIN <= self.sumwt2 as int + data as int * data as int * weight as int
            <= i64::MAX
        &&& i64::MIN <= self.sumw as int + weight as int <= i64::MAX
        &&& i64::MIN <= self.sumw2 as int + weight as int * weight as int <= i64::MAX
        &&& self.count < u64::MAX
    }

    open spec fn spec_fill_with_weighted(&self, data: i64, weight: i64) -> Self {
        WeightedMean {
            sumwt: (self.sumwt as int + data as int * weight as int) as i64,
            sumwt2: (self.sumwt2 as int + data as int * data as int * weight as int) as i64,
            sumw: (self.sumw as int + weight as int) as i64,
            sumw2: (self.sumw2 as int + weight as int * weight as int) as i64,
            count: (self.count + 1) as u64,
        }
    }

    fn fill_with_weighted(&mut self, data: i64, weight: i64) {
        proof {
            crate::value::lemma_i64_mul_fits_i128(data as int, weight as int);
            crate::value::lemma_i64_mul_fits_i128(data as int, data as int);
            crate::value::lemma_i64_mul_fits_i128(weight as int, weight as int);
        }
        let dw = (data as i128) * (weight as i128);
        self.sumwt = ((self.sumwt as i128) + dw) as i64;
        let dd = (data as i128) * (data as i128);
        let ddw = dd * (weight as i128);
        self.sumwt2 = ((self.sumwt2 as i128) + ddw) as i64;
        self.sumw = self.sumw + weight;
        let ww = (weight as i128) * (weight as i128);
        self.sumw2 = ((self.sumw2 as i128) + ww) as i64;
        self.count = self.count + 1;
    }
}

} // verus!
