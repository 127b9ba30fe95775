//! A wrap-around axis with equal-sized bins.

use vstd::prelude::*;

use vstd::arithmetic::div_mod::lemma_fundamental_div_mod;
use vstd::arithmetic::div_mod::lemma_fundamental_div_mod_converse;
use vstd::arithmetic::div_mod::lemma_mod_add_multiples_vanish;
use vstd::arithmetic::div_mod::lemma_mod_bound;
use vstd::arithmetic::div_mod::lemma_mod_sub_multiples_vanish;

use crate::axis::Axis;
use crate::axis::BinInterval;
use crate::axis::Uniform;
use crate::error::AxisError;

verus! {

/// A wrap-around axis with `num` equally spaced, equal-sized bins in
/// `[low, high)`.  Coordinates outside this interval are wrapped around
/// modulo the period `high - low`, so every coordinate maps to one of the
/// `num` bins and there are no flow bins.
#[derive(Clone, Copy, PartialEq, Eq, Structural, Debug, Hash)]
pub struct UniformCyclic {
    /// The underlying axis with flow bins.
    pub axis: Uniform,
}

impl UniformCyclic {
    /// Build a wrap-around axis with `num` bins of width `step` starting
    /// at `low`, with period `num * step`.
    ///
    /// Fails with `InvalidNumberOfBins` when `num` is zero and with
    /// `InvalidStepSize` when `step` is not positive.
    pub fn with_step_size(num: usize, low: i64, step: i64) -> (r: Result<Self, AxisError>)
        requires
            num <= usize::MAX - 2,
            (num > 0 && step > 0) ==> low as int + num as int * step as int <= i64::MAX as int,
        ensures
            num == 0 ==> r == Err::<UniformCyclic, AxisError>(AxisError::InvalidNumberOfBins),
            num > 0 && step <= 0 ==> r == Err::<UniformCyclic, AxisError>(
                AxisError::InvalidStepSize,
            ),
            num > 0 && step > 0 ==> (r matches Ok(a) && a.wf() && a.axis.num == num && a.axis.low
                == low && a.axis.step == step && a.axis.high as int == low as int + num as int
                * step as int),
    {
        match Uniform::with_step_size(num, low, step) {
            Ok(axis) => Ok(UniformCyclic { axis }),
            Err(e) => Err(e),
        }
    }

    /// The low edge of the axis (excluding wrap-around).
    pub fn low(&self) -> (r: i64)
        ensures
            r == self.axis.low,
    {
        self.axis.low()
    }

    /// The high edge of the axis (excluding wrap-around).
    pub fn high(&self) -> (r: i64)
        ensures
            r == self.axis.high,
    {
        self.axis.high()
    }
}

impl Axis for UniformCyclic {
    type Coordinate = i64;

    type BinInterval = BinInterval<i64>;

    open spec fn wf(&self) -> bool {
        self.axis.wf()
    }

    open spec fn fixed(&self) -> bool {
        true
    }

    open spec fn same_binning(&self, other: &Self) -> bool {
        *self == *other
    }

    fn binning_eq(&self, other: &Self) -> (r: bool) {
        *self == *other
    }

    proof fn same_binning_reflexive(&self) {
    }

    proof fn same_binning_same_bins(&self, other: &Self) {
    }

    open spec fn spec_num_bins(&self) -> usize {
        self.axis.num
    }

    open spec fn spec_index(&self, coordinate: &i64) -> Option<usize> {
        let range = self.axis.high as int - self.axis.low as int;
        let wrapped = (coordinate as int - self.axis.low as int) % range;
        Some((wrapped / self.axis.step as int) as usize)
    }

    open spec fn spec_bin(&self, index: int) -> Option<BinInterval<i64>> {
        if 0 <= index < self.axis.num as int {
            self.axis.spec_bin(index + 1)
        } else {
            None
        }
    }

    fn index(&self, coordinate: &i64) -> (r: Option<usize>) {
        let lo = self.axis.low as i128;
        let range = (self.axis.high as i128) - lo;
        proof {
            lemma_period_positive(self.axis.num as int, self.axis.step as int);
        }
        let off = (*coordinate as i128) - lo;
        let m = euclidean_mod(off, range);
        proof {
            crate::axis::uniform::lemma_steps_in_range(
                m as int,
                self.axis.step as int,
                self.axis.num as int,
            );
        }
        let steps = m / (self.axis.step as i128);
        Some(steps as usize)
    }

    fn num_bins(&self) -> (r: usize) {
        self.axis.num_bins() - 2
    }

    fn bin(&self, index: usize) -> (r: Option<BinInterval<i64>>) {
        if index >= self.axis.num {
            None
        } else {
            self.axis.bin(index + 1)
        }
    }
}

/// The remainder of `off` modulo `range`, always in `[0, range)`,
/// whatever the sign of `off`.
pub(crate) fn euclidean_mod(off: i128, range: i128) -> (m: i128)
    requires
        1 <= range,
        i128::MIN < off,
    ensures
        m as int == (off as int) % (range as int),
        0 <= m < range,
{
    proof {
        lemma_mod_bound(off as int, range as int);
    }
    if off >= 0 {
        off % range
    } else {
        let k = (-off) % range;
        proof {
            lemma_fundamental_div_mod(-off as int, range as int);
            let q = (-off as int) / (range as int);
            if k == 0 {
                assert(off as int == (-q) * (range as int) + 0) by (nonlinear_arith)
                    requires
                        (-off as int) == q * (range as int) + (k as int),
                        k as int == 0,
                ;
                lemma_fundamental_div_mod_converse(off as int, range as int, -q, 0);
            } else {
                assert(off as int == (-q - 1) * (range as int) + (range as int - k as int))
                    by (nonlinear_arith)
                    requires
                        (-off as int) == q * (range as int) + (k as int),
                ;
                lemma_fundamental_div_mod_converse(
                    off as int,
                    range as int,
                    -q - 1,
                    range as int - k as int,
                );
            }
        }
        if k == 0 {
            0
        } else {
            range - k
        }
    }
}

/// The period `num * step` of a well-formed cyclic axis is positive.
proof fn lemma_period_positive(num: int, step: int)
    requires
        1 <= num,
        1 <= step,
    ensures
        num * step >= 1,
{
    assert(num * step >= 1) by (nonlinear_arith)
        requires
            1 <= num,
            1 <= step,
    ;
}

/// On a cyclic axis, coordinates one period apart fall in the same bin:
/// the index of `x` equals the index of `x + period` and of
/// `x - period`, where the period is `high - low`.
pub proof fn lemma_cyclic_period(a: UniformCyclic, x: i64, y: i64)
    requires
        a.wf(),
        y as int == x as int + (a.axis.high as int - a.axis.low as int) || y as int == x as int - (
        a.axis.high as int - a.axis.low as int),
    ensures
        a.spec_index(&y) == a.spec_index(&x),
{
    let low = a.axis.low as int;
    let range = a.axis.high as int - low;
    lemma_period_positive(a.axis.num as int, a.axis.step as int);
    let b = x as int - low;
    if y as int == x as int + range {
        lemma_mod_add_multiples_vanish(b, range);
    } else {
        lemma_mod_sub_multiples_vanish(b, range);
    }
}

} // verus!
