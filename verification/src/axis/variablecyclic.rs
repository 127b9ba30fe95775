//! A wrap-around axis with variable-sized bins.

use vstd::prelude::*;

use vstd::arithmetic::div_mod::lemma_mod_add_multiples_vanish;
use vstd::arithmetic::div_mod::lemma_mod_sub_multiples_vanish;
use vstd::seq_lib::group_to_multiset_ensures;

use crate::axis::uniformcyclic::euclidean_mod;
use crate::axis::variable::count_edges_le;
use crate::axis::variable::lemma_count_edges_le_bounds;
use crate::axis::variable::lemma_count_edges_le_interior;
use crate::axis::Axis;
use crate::axis::BinInterval;
use crate::axis::Variable;
use crate::error::AxisError;

verus! {

broadcast use group_to_multiset_ensures, vstd::multiset::group_multiset_axioms;

/// A wrap-around axis with variable-sized bins built from an ascending
/// list of bin edges.  Coordinates outside `[lowest, highest)` are
/// wrapped around modulo the period `highest - lowest`, so every
/// coordinate maps to one of the `len - 1` bins and there are no flow
/// bins.
#[derive(Clone, PartialEq, Eq, Debug, Hash)]
pub struct VariableCyclic {
    /// The underlying axis with flow bins.
    pub axis: Variable,
}

impl VariableCyclic {
    /// Build a wrap-around axis from a list of bin edges; the edges are
    /// sorted into ascending order first.
    ///
    /// Fails with `InvalidNumberOfBinEdges` when fewer than two edges are
    /// given, and with `InvalidAxisRange` when all edges are equal, since
    /// the period would then be empty.
    pub fn new(bin_edges: Vec<i64>) -> (r: Result<Self, AxisError>)
        requires
            bin_edges@.len() <= usize::MAX - 1,
        ensures
            bin_edges@.len() < 2 ==> r == Err::<VariableCyclic, AxisError>(
                AxisError::InvalidNumberOfBinEdges,
            ),
            bin_edges@.len() >= 2 && (forall|i: int, j: int|
                0 <= i < bin_edges@.len() && 0 <= j < bin_edges@.len() ==> bin_edges@[i]
                    == bin_edges@[j]) ==> r == Err::<VariableCyclic, AxisError>(
                AxisError::InvalidAxisRange,
            ),
            bin_edges@.len() >= 2 && !(forall|i: int, j: int|
                0 <= i < bin_edges@.len() && 0 <= j < bin_edges@.len() ==> bin_edges@[i]
                    == bin_edges@[j]) ==> (r matches Ok(a) && a.wf()
                && a.axis.bin_edges@.to_multiset() == bin_edges@.to_multiset()
                && a.axis.bin_edges@.len() == bin_edges@.len()),
    {
        let ghost input = bin_edges@;
        let axis = match Variable::new(bin_edges) {
            Ok(axis) => axis,
            Err(e) => {
                return Err(e);
            },
        };
        let n = axis.bin_edges.len();
        if axis.bin_edges[0] == axis.bin_edges[n - 1] {
            proof {
                lemma_all_equal_of_extremes(axis.bin_edges@, input);
            }
            return Err(AxisError::InvalidAxisRange);
        }
        proof {
            lemma_unequal_of_extremes(axis.bin_edges@, input);
        }
        Ok(VariableCyclic { axis })
    }

    /// The lowest bin edge (excluding wrap-around).
    pub fn low(&self) -> (r: i64)
        requires
            self.wf(),
        ensures
            r == self.axis.bin_edges@[0],
    {
        self.axis.low()
    }

    /// The highest bin edge (excluding wrap-around).
    pub fn high(&self) -> (r: i64)
        requires
            self.wf(),
        ensures
            r == self.axis.bin_edges@.last(),
    {
        self.axis.high()
    }
}

impl Axis for VariableCyclic {
    type Coordinate = i64;

    type BinInterval = BinInterval<i64>;

    open spec fn wf(&self) -> bool {
        &&& self.axis.wf()
        &&& self.axis.bin_edges@[0] < self.axis.bin_edges@.last()
    }

    open spec fn fixed(&self) -> bool {
        true
    }

    open spec fn same_binning(&self, other: &Self) -> bool {
        self.axis.bin_edges@ == other.axis.bin_edges@
    }

    fn binning_eq(&self, other: &Self) -> (r: bool) {
        self.axis.binning_eq(&other.axis)
    }

    proof fn same_binning_reflexive(&self) {
    }

    proof fn same_binning_same_bins(&self, other: &Self) {
    }

    open spec fn spec_num_bins(&self) -> usize {
        (self.axis.bin_edges@.len() - 1) as usize
    }

    open spec fn spec_index(&self, coordinate: &i64) -> Option<usize> {
        let low = self.axis.bin_edges@[0] as int;
        let range = self.axis.bin_edges@.last() as int - low;
        let wrapped = low + (coordinate as int - low) % range;
        Some((count_edges_le(self.axis.bin_edges@, wrapped as i64) - 1) as usize)
    }

    open spec fn spec_bin(&self, index: int) -> Option<BinInterval<i64>> {
        if 0 <= index < self.axis.bin_edges@.len() - 1 {
            self.axis.spec_bin(index + 1)
        } else {
            None
        }
    }

    fn index(&self, coordinate: &i64) -> (r: Option<usize>) {
        let n = self.axis.bin_edges.len();
        let lo = self.axis.bin_edges[0] as i128;
        let range = (self.axis.bin_edges[n - 1] as i128) - lo;
        let off = (*coordinate as i128) - lo;
        let m = euclidean_mod(off, range);
        let w = (lo + m) as i64;
        proof {
            lemma_count_edges_le_interior(self.axis.bin_edges@, w);
            lemma_count_edges_le_bounds(self.axis.bin_edges@, w);
        }
        let i = match self.axis.index(&w) {
            Some(i) => i,
            None => {
                proof {
                    assert(false);
                }
                0
            },
        };
        Some(i - 1)
    }

    fn num_bins(&self) -> (r: usize) {
        self.axis.num_bins() - 2
    }

    fn bin(&self, index: usize) -> (r: Option<BinInterval<i64>>) {
        if index >= self.axis.bin_edges.len() - 1 {
            None
        } else {
            self.axis.bin(index + 1)
        }
    }
}

/// When a sorted sequence starts and ends with the same value, every
/// element of any sequence with the same contents equals every other.
proof fn lemma_all_equal_of_extremes(sorted: Seq<i64>, input: Seq<i64>)
    requires
        sorted.len() >= 1,
        crate::axis::variable::sorted_ascending(sorted),
        sorted[0] == sorted.last(),
        sorted.to_multiset() == input.to_multiset(),
    ensures
        forall|i: int, j: int|
            0 <= i < input.len() && 0 <= j < input.len() ==> input[i] == input[j],
{
    assert forall|i: int, j: int|
        0 <= i < input.len() && 0 <= j < input.len() implies input[i] == input[j] by {
        assert(input.to_multiset().count(input[i]) > 0) by {
            assert(input.contains(input[i]));
        }
        assert(sorted.contains(input[i]));
        assert(input.to_multiset().count(input[j]) > 0) by {
            assert(input.contains(input[j]));
        }
        assert(sorted.contains(input[j]));
        let ki = choose|k: int| 0 <= k < sorted.len() && sorted[k] == input[i];
        let kj = choose|k: int| 0 <= k < sorted.len() && sorted[k] == input[j];
        assert(sorted[0] <= sorted[ki] <= sorted.last());
        assert(sorted[0] <= sorted[kj] <= sorted.last());
    }
}

/// When a sorted sequence starts and ends with different values, any
/// sequence with the same contents holds two different values.
proof fn lemma_unequal_of_extremes(sorted: Seq<i64>, input: Seq<i64>)
    requires
        sorted.len() >= 2,
        sorted[0] != sorted.last(),
        sorted.to_multiset() == input.to_multiset(),
    ensures
        !(forall|i: int, j: int|
            0 <= i < input.len() && 0 <= j < input.len() ==> input[i] == input[j]),
{
    assert(sorted.contains(sorted[0]));
    assert(sorted.to_multiset().count(sorted[0]) > 0);
    assert(input.contains(sorted[0]));
    assert(sorted.contains(sorted.last()));
    assert(sorted.to_multiset().count(sorted.last()) > 0);
    assert(input.contains(sorted.last()));
    let ki = choose|k: int| 0 <= k < input.len() && input[k] == sorted[0];
    let kj = choose|k: int| 0 <= k < input.len() && input[k] == sorted.last();
    assert(input[ki] != input[kj]);
}

/// On a cyclic axis with variable bins, coordinates one period apart
/// fall in the same bin, where the period is the distance from the
/// lowest to the highest edge.
pub proof fn lemma_variable_cyclic_period(a: VariableCyclic, x: i64, y: i64)
    requires
        a.wf(),
        y as int == x as int + (a.axis.bin_edges@.last() as int - a.axis.bin_edges@[0] as int) || y
            as int == x as int - (a.axis.bin_edges@.last() as int - a.axis.bin_edges@[0] as int),
    ensures
        a.spec_index(&y) == a.spec_index(&x),
{
    let low = a.axis.bin_edges@[0] as int;
    let range = a.axis.bin_edges@.last() as int - low;
    let b = x as int - low;
    if y as int == x as int + range {
        lemma_mod_add_multiples_vanish(b, range);
    } else {
        lemma_mod_sub_multiples_vanish(b, range);
    }
}

} // verus!
