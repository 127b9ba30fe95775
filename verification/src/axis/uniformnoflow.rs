//! An axis with equal-sized bins and no underflow/overflow bins.

use vstd::prelude::*;

use crate::axis::Axis;
use crate::axis::BinInterval;
use crate::axis::Uniform;
use crate::error::AxisError;

verus! {

/// An axis with `num` equally spaced, equal-sized bins covering
/// `[low, high)` and no underflow or overflow bins: coordinates outside
/// the range map to no bin at all.
#[derive(Clone, Copy, PartialEq, Eq, Structural, Debug, Hash)]
pub struct UniformNoFlow {
    /// The underlying axis with flow bins.
    pub axis: Uniform,
}

impl UniformNoFlow {
    /// Build an axis with `num` bins of width `step` starting at `low`,
    /// covering `[low, low + num * step)`, with no flow bins.
    ///
    /// Fails with `InvalidNumberOfBins` when `num` is zero and with
    /// `InvalidStepSize` when `step` is not positive.
    pub fn with_step_size(num: usize, low: i64, step: i64) -> (r: Result<Self, AxisError>)
        requires
            num <= usize::MAX - 2,
            (num > 0 && step > 0) ==> low as int + num as int * step as int <= i64::MAX as int,
        ensures
            num == 0 ==> r == Err::<UniformNoFlow, AxisError>(AxisError::InvalidNumberOfBins),
            num > 0 && step <= 0 ==> r == Err::<UniformNoFlow, AxisError>(
                AxisError::InvalidStepSize,
            ),
            num > 0 && step > 0 ==> (r matches Ok(a) && a.wf() && a.axis.num == num && a.axis.low
                == low && a.axis.step == step && a.axis.high as int == low as int + num as int
                * step as int),
    {
        match Uniform::with_step_size(num, low, step) {
            Ok(axis) => Ok(UniformNoFlow { axis }),
            Err(e) => Err(e),
        }
    }

    /// The lowest bin edge.
    pub fn low(&self) -> (r: i64)
        ensures
            r == self.axis.low,
    {
        self.axis.low()
    }

    /// The highest bin edge.
    pub fn high(&self) -> (r: i64)
        ensures
            r == self.axis.high,
    {
        self.axis.high()
    }
}

impl Axis for UniformNoFlow {
    type Coordinate = i64;

    type BinInterval = BinInterval<i64>;

    open spec fn wf(&self) -> bool {
        self.axis.wf()
    }

    open spec fn fixed(&self) -> bool {
        true
    }

    open spec fn same_binning(&self, other: &Self) -> bool {
        *self == *other
    }

    fn binning_eq(&self, other: &Self) -> (r: bool) {
        *self == *other
    }

    proof fn same_binning_reflexive(&self) {
    }

    proof fn same_binning_same_bins(&self, other: &Self) {
    }

    open spec fn spec_num_bins(&self) -> usize {
        self.axis.num
    }

    open spec fn spec_index(&self, coordinate: &i64) -> Option<usize> {
        if *coordinate < self.axis.low || *coordinate >= self.axis.high {
            None
        } else {
            Some((((coordinate as int - self.axis.low as int) / self.axis.step as int)) as usize)
        }
    }

    open spec fn spec_bin(&self, index: int) -> Option<BinInterval<i64>> {
        if 0 <= index < self.axis.num as int {
            self.axis.spec_bin(index + 1)
        } else {
            None
        }
    }

    fn index(&self, coordinate: &i64) -> (r: Option<usize>) {
        let i = match self.axis.index(coordinate) {
            Some(i) => i,
            None => {
                proof {
                    assert(false);
                }
                0
            },
        };
        proof {
            if self.axis.low <= *coordinate && *coordinate < self.axis.high {
                crate::axis::uniform::lemma_steps_in_range(
                    *coordinate as int - self.axis.low as int,
                    self.axis.step as int,
                    self.axis.num as int,
                );
            }
        }
        if i == 0 || i + 1 == self.axis.num_bins() {
            None
        } else {
            Some(i - 1)
        }
    }

    fn num_bins(&self) -> (r: usize) {
        self.axis.num_bins() - 2
    }

    fn bin(&self, index: usize) -> (r: Option<BinInterval<i64>>) {
        if index >= self.axis.num {
            None
        } else {
            self.axis.bin(index + 1)
        }
    }
}

} // verus!
