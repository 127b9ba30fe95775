//! An axis with variable-sized bins and no underflow/overflow bins.

use vstd::prelude::*;

use crate::axis::variable::count_edges_le;
use crate::axis::variable::lemma_count_edges_le_bounds;
use crate::axis::Axis;
use crate::axis::BinInterval;
use crate::axis::Variable;
use crate::error::AxisError;

verus! {

/// An axis with variable-sized bins built from an ascending list of bin
/// edges, with no underflow or overflow bins: coordinates outside the
/// covered range map to no bin at all.  It has `len - 1` bins for `len`
/// edges.
#[derive(Clone, PartialEq, Eq, Debug, Hash)]
pub struct VariableNoFlow {
    /// The underlying axis with flow bins.
    pub axis: Variable,
}

impl VariableNoFlow {
    /// Build an axis from a list of bin edges, with no flow bins; the
    /// edges are sorted into ascending order first.
    ///
    /// Fails with `InvalidNumberOfBinEdges` when fewer than two edges are
    /// given.
    pub fn new(bin_edges: Vec<i64>) -> (r: Result<Self, AxisError>)
        requires
            bin_edges@.len() <= usize::MAX - 1,
        ensures
            bin_edges@.len() < 2 ==> r == Err::<VariableNoFlow, AxisError>(
                AxisError::InvalidNumberOfBinEdges,
            ),
            bin_edges@.len() >= 2 ==> (r matches Ok(a) && a.wf()
                && a.axis.bin_edges@.to_multiset() == bin_edges@.to_multiset()
                && a.axis.bin_edges@.len() == bin_edges@.len()),
    {
        match Variable::new(bin_edges) {
            Ok(axis) => Ok(VariableNoFlow { axis }),
            Err(e) => Err(e),
        }
    }

    /// The lowest bin edge.
    pub fn low(&self) -> (r: i64)
        requires
            self.wf(),
        ensures
            r == self.axis.bin_edges@[0],
    {
        self.axis.low()
    }

    /// The highest bin edge.
    pub fn high(&self) -> (r: i64)
        requires
            self.wf(),
        ensures
            r == self.axis.bin_edges@.last(),
    {
        self.axis.high()
    }
}

impl Axis for VariableNoFlow {
    type Coordinate = i64;

    type BinInterval = BinInterval<i64>;

    open spec fn wf(&self) -> bool {
        self.axis.wf()
    }

    open spec fn fixed(&self) -> bool {
        true
    }

    open spec fn same_binning(&self, other: &Self) -> bool {
        self.axis.bin_edges@ == other.axis.bin_edges@
    }

    fn binning_eq(&self, other: &Self) -> (r: bool) {
        self.axis.binning_eq(&other.axis)
    }

    proof fn same_binning_reflexive(&self) {
    }

    proof fn same_binning_same_bins(&self, other: &Self) {
    }

    open spec fn spec_num_bins(&self) -> usize {
        (self.axis.bin_edges@.len() - 1) as usize
    }

    open spec fn spec_index(&self, coordinate: &i64) -> Option<usize> {
        let c = count_edges_le(self.axis.bin_edges@, *coordinate);
        if c == 0 || c == self.axis.bin_edges@.len() {
            None
        } else {
            Some((c - 1) as usize)
        }
    }

    open spec fn spec_bin(&self, index: int) -> Option<BinInterval<i64>> {
        if 0 <= index < self.axis.bin_edges@.len() - 1 {
            self.axis.spec_bin(index + 1)
        } else {
            None
        }
    }

    fn index(&self, coordinate: &i64) -> (r: Option<usize>) {
        proof {
            lemma_count_edges_le_bounds(self.axis.bin_edges@, *coordinate);
        }
        let i = match self.axis.index(coordinate) {
            Some(i) => i,
            None => {
                proof {
                    assert(false);
                }
                0
            },
        };
        if i == 0 || i + 1 == self.axis.num_bins() {
            None
        } else {
            Some(i - 1)
        }
    }

    fn num_bins(&self) -> (r: usize) {
        self.axis.num_bins() - 2
    }

    fn bin(&self, index: usize) -> (r: Option<BinInterval<i64>>) {
        if index >= self.axis.bin_edges.len() - 1 {
            None
        } else {
            self.axis.bin(index + 1)
        }
    }
}

} // verus!
