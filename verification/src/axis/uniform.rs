//! An axis with equal-sized bins and underflow/overflow bins.

use vstd::prelude::*;

use crate::axis::Axis;
use crate::axis::BinInterval;
use crate::error::AxisError;

verus! {

/// An axis with `num` equally spaced, equal-sized bins covering
/// `[low, high)`, where `high == low + num * step`, plus an underflow bin
/// below the range and an overflow bin above it, for `num + 2` bins in
/// all.
///
/// Coordinates are integers; callers binning fractional data choose a
/// unit and scale their coordinates to it.
#[derive(Clone, Copy, PartialEq, Eq, Structural, Debug, Hash)]
pub struct Uniform {
    /// The number of bins between `low` and `high`.
    pub num: usize,
    /// The low edge of the axis (underflow bin excluded).
    pub low: i64,
    /// The high edge of the axis (overflow bin excluded).
    pub high: i64,
    /// The width of one bin.
    pub step: i64,
}

impl Uniform {
    /// Build an axis with `num` bins of width `step` starting at `low`,
    /// covering `[low, low + num * step)`.
    ///
    /// Fails with `InvalidNumberOfBins` when `num` is zero and with
    /// `InvalidStepSize` when `step` is not positive.
    pub fn with_step_size(num: usize, low: i64, step: i64) -> (r: Result<Self, AxisError>)
        requires
            num <= usize::MAX - 2,
            (num > 0 && step > 0) ==> low as int + num as int * step as int <= i64::MAX as int,
        ensures
            num == 0 ==> r == Err::<Uniform, AxisError>(AxisError::InvalidNumberOfBins),
            num > 0 && step <= 0 ==> r == Err::<Uniform, AxisError>(AxisError::InvalidStepSize),
            num > 0 && step > 0 ==> (r matches Ok(a) && a.wf() && a.num == num && a.low == low
                && a.step == step && a.high as int == low as int + num as int * step as int),
    {
        if num == 0 {
            return Err(AxisError::InvalidNumberOfBins);
        }
        if step <= 0 {
            return Err(AxisError::InvalidStepSize);
        }
        proof {
            assert(num as int * step as int >= 0) by (nonlinear_arith)
                requires
                    num as int >= 0,
                    step as int > 0,
            ;
        }
        let high = ((low as i128) + (num as i128) * (step as i128)) as i64;
        Ok(Uniform { num, low, high, step })
    }

    /// The low edge of the axis (excluding the underflow bin).
    pub fn low(&self) -> (r: i64)
        ensures
            r == self.low,
    {
        self.low
    }

    /// The high edge of the axis (excluding the overflow bin).
    pub fn high(&self) -> (r: i64)
        ensures
            r == self.high,
    {
        self.high
    }
}

impl Axis for Uniform {
    type Coordinate = i64;

    type BinInterval = BinInterval<i64>;

    open spec fn wf(&self) -> bool {
        &&& 1 <= self.num
        &&& self.num + 2 <= usize::MAX
        &&& 1 <= self.step
        &&& self.high as int == self.low as int + self.num as int * self.step as int
    }

    open spec fn fixed(&self) -> bool {
        true
    }

    open spec fn same_binning(&self, other: &Self) -> bool {
        *self == *other
    }

    fn binning_eq(&self, other: &Self) -> (r: bool) {
        *self == *other
    }

    proof fn same_binning_reflexive(&self) {
    }

    proof fn same_binning_same_bins(&self, other: &Self) {
    }

    open spec fn spec_num_bins(&self) -> usize {
        (self.num + 2) as usize
    }

    open spec fn spec_index(&self, coordinate: &i64) -> Option<usize> {
        if *coordinate < self.low {
            Some(0usize)
        } else if *coordinate >= self.high {
            Some((self.num + 1) as usize)
        } else {
            Some((((coordinate as int - self.low as int) / self.step as int) + 1) as usize)
        }
    }

    open spec fn spec_bin(&self, index: int) -> Option<BinInterval<i64>> {
        if index == 0 {
            Some(BinInterval::Underflow { end: self.low })
        } else if index == self.num as int + 1 {
            Some(BinInterval::Overflow { start: self.high })
        } else if 1 <= index <= self.num as int {
            Some(
                BinInterval::Bin {
                    start: (self.low as int + (index - 1) * self.step as int) as i64,
                    end: (self.low as int + index * self.step as int) as i64,
                },
            )
        } else {
            None
        }
    }

    fn index(&self, coordinate: &i64) -> (r: Option<usize>) {
        let x = *coordinate;
        if x < self.low {
            Some(0)
        } else if x >= self.high {
            Some(self.num + 1)
        } else {
            let offset = (x as i128) - (self.low as i128);
            let steps = offset / (self.step as i128);
            proof {
                lemma_steps_in_range(
                    offset as int,
                    self.step as int,
                    self.num as int,
                );
            }
            Some((steps as usize) + 1)
        }
    }

    fn num_bins(&self) -> (r: usize) {
        self.num + 2
    }

    fn bin(&self, index: usize) -> (r: Option<BinInterval<i64>>) {
        if index == 0 {
            Some(BinInterval::Underflow { end: self.low })
        } else if index == self.num + 1 {
            Some(BinInterval::Overflow { start: self.high })
        } else if index > self.num + 1 {
            None
        } else {
            proof {
                lemma_edge_in_range(
                    self.low as int,
                    self.step as int,
                    self.num as int,
                    index as int - 1,
                );
                lemma_edge_in_range(
                    self.low as int,
                    self.step as int,
                    self.num as int,
                    index as int,
                );
            }
            let start = ((self.low as i128) + ((index - 1) as i128) * (self.step as i128)) as i64;
            let end = ((self.low as i128) + (index as i128) * (self.step as i128)) as i64;
            Some(BinInterval::Bin { start, end })
        }
    }
}

/// For an offset inside the covered range, the bin step count lands on
/// one of the `num` interior bins.
pub(crate) proof fn lemma_steps_in_range(offset: int, step: int, num: int)
    requires
        0 <= offset,
        1 <= step,
        1 <= num,
        offset < num * step,
    ensures
        0 <= offset / step < num,
{
    assert(0 <= offset / step && offset / step < num) by (nonlinear_arith)
        requires
            0 <= offset,
            1 <= step,
            1 <= num,
            offset < num * step,
    ;
}

/// Every bin edge of a well-formed uniform axis lies between `low` and
/// `low + num * step`.
proof fn lemma_edge_in_range(low: int, step: int, num: int, k: int)
    requires
        1 <= step,
        0 <= k <= num,
    ensures
        low <= low + k * step <= low + num * step,
{
    assert(0 <= k * step && k * step <= num * step) by (nonlinear_arith)
        requires
            1 <= step,
            0 <= k <= num,
    ;
}

/// On a uniform axis the bin index is defined for every coordinate and is
/// monotonic non-decreasing in the coordinate.
pub proof fn lemma_uniform_index_monotonic(a: Uniform, x1: i64, x2: i64)
    requires
        a.wf(),
        x1 <= x2,
    ensures
        a.spec_index(&x1) is Some,
        a.spec_index(&x2) is Some,
        a.spec_index(&x1)->0 <= a.spec_index(&x2)->0,
{
    let low = a.low as int;
    let high = a.high as int;
    let step = a.step as int;
    let num = a.num as int;
    if x1 < a.low {
        // index(x1) == 0, below every other index.
    } else if x1 >= a.high {
        assert(x2 >= a.high);
    } else {
        lemma_steps_in_range(x1 as int - low, step, num);
        if x2 >= a.high {
            // index(x2) is the overflow bin num + 1.
        } else {
            lemma_steps_in_range(x2 as int - low, step, num);
            assert((x1 as int - low) / step <= (x2 as int - low) / step) by (nonlinear_arith)
                requires
                    1 <= step,
                    0 <= x1 as int - low <= x2 as int - low,
            ;
        }
    }
}

/// On a uniform axis, a coordinate inside `[low, high)` falls in a finite
/// bin whose interval contains the coordinate.
pub proof fn lemma_uniform_bin_contains(a: Uniform, x: i64)
    requires
        a.wf(),
        a.low <= x < a.high,
    ensures
        a.spec_index(&x) is Some,
        ({
            let i = a.spec_index(&x)->0 as int;
            a.spec_bin(i) matches Some(BinInterval::Bin { start, end }) && start <= x && x < end
        }),
{
    let low = a.low as int;
    let step = a.step as int;
    let num = a.num as int;
    let offset = x as int - low;
    lemma_steps_in_range(offset, step, num);
    let q = offset / step;
    assert(q * step <= offset < (q + 1) * step) by (nonlinear_arith)
        requires
            0 <= offset,
            1 <= step,
            q == offset / step,
    ;
    lemma_edge_in_range(low, step, num, q);
    lemma_edge_in_range(low, step, num, q + 1);
}

} // verus!
