//! An axis with variable-sized bins given by an explicit list of edges.

use vstd::prelude::*;

use vstd::multiset::Multiset;
use vstd::seq_lib::group_to_multiset_ensures;

use crate::axis::Axis;
use crate::axis::BinInterval;
use crate::error::AxisError;

verus! {

broadcast use group_to_multiset_ensures, vstd::multiset::group_multiset_axioms;

/// Whether a sequence of edges is in ascending order.
pub open spec fn sorted_ascending(s: Seq<i64>) -> bool {
    forall|i: int, j: int| 0 <= i < j < s.len() ==> s[i] <= s[j]
}

/// The number of edges that are less than or equal to `x`.  On a sorted
/// edge list this is exactly the bin index of `x`: 0 is the underflow
/// bin, `len` the overflow bin, and an exact edge match falls in the bin
/// that starts at that edge.
pub open spec fn count_edges_le(s: Seq<i64>, x: i64) -> int
    decreases s.len(),
{
    if s.len() == 0 {
        0
    } else {
        count_edges_le(s.drop_last(), x) + if s.last() <= x {
            1int
        } else {
            0int
        }
    }
}

/// An axis with variable-sized bins, built from an ascending list of bin
/// edges, plus an underflow bin below the lowest edge and an overflow bin
/// from the highest edge upwards: `len + 1` bins for `len` edges.
#[derive(Clone, PartialEq, Eq, Debug, Hash)]
pub struct Variable {
    /// The bin edges, in ascending order.
    pub bin_edges: Vec<i64>,
}

impl Variable {
    /// Build an axis from a list of bin edges; the edges are sorted into
    /// ascending order first.
    ///
    /// Fails with `InvalidNumberOfBinEdges` when fewer than two edges are
    /// given.
    pub fn new(bin_edges: Vec<i64>) -> (r: Result<Self, AxisError>)
        requires
            bin_edges@.len() <= usize::MAX - 1,
        ensures
            bin_edges@.len() < 2 ==> r == Err::<Variable, AxisError>(
                AxisError::InvalidNumberOfBinEdges,
            ),
            bin_edges@.len() >= 2 ==> (r matches Ok(a) && a.wf()
                && a.bin_edges@.to_multiset() == bin_edges@.to_multiset()
                && a.bin_edges@.len() == bin_edges@.len()),
    {
        if bin_edges.len() < 2 {
            return Err(AxisError::InvalidNumberOfBinEdges);
        }
        let sorted = sort_edges(bin_edges);
        Ok(Variable { bin_edges: sorted })
    }

    /// The lowest bin edge.
    pub fn low(&self) -> (r: i64)
        requires
            self.wf(),
        ensures
            r == self.bin_edges@[0],
    {
        self.bin_edges[0]
    }

    /// The highest bin edge.
    pub fn high(&self) -> (r: i64)
        requires
            self.wf(),
        ensures
            r == self.bin_edges@.last(),
    {
        self.bin_edges[self.bin_edges.len() - 1]
    }
}

impl Axis for Variable {
    type Coordinate = i64;

    type BinInterval = BinInterval<i64>;

    open spec fn wf(&self) -> bool {
        &&& 2 <= self.bin_edges@.len()
        &&& self.bin_edges@.len() + 1 <= usize::MAX
        &&& sorted_ascending(self.bin_edges@)
    }

    open spec fn fixed(&self) -> bool {
        true
    }

    open spec fn same_binning(&self, other: &Self) -> bool {
        self.bin_edges@ == other.bin_edges@
    }

    fn binning_eq(&self, other: &Self) -> (r: bool) {
        edges_eq(&self.bin_edges, &other.bin_edges)
    }

    proof fn same_binning_reflexive(&self) {
    }

    proof fn same_binning_same_bins(&self, other: &Self) {
    }

    open spec fn spec_num_bins(&self) -> usize {
        (self.bin_edges@.len() + 1) as usize
    }

    open spec fn spec_index(&self, coordinate: &i64) -> Option<usize> {
        Some(count_edges_le(self.bin_edges@, *coordinate) as usize)
    }

    open spec fn spec_bin(&self, index: int) -> Option<BinInterval<i64>> {
        let n = self.bin_edges@.len() as int;
        if index == 0 {
            Some(BinInterval::Underflow { end: self.bin_edges@[0] })
        } else if index == n {
            Some(BinInterval::Overflow { start: self.bin_edges@[n - 1] })
        } else if 0 < index < n {
            Some(BinInterval::Bin { start: self.bin_edges@[index - 1], end: self.bin_edges@[index] })
        } else {
            None
        }
    }

    /// A binary search for the number of edges at or below the
    /// coordinate.
    fn index(&self, coordinate: &i64) -> (r: Option<usize>) {
        let x = *coordinate;
        let mut lo: usize = 0;
        let mut hi: usize = self.bin_edges.len();
        while lo < hi
            invariant
                self.wf(),
                lo <= hi <= self.bin_edges@.len(),
                forall|i: int| 0 <= i < lo ==> self.bin_edges@[i] <= x,
                forall|i: int| hi <= i < self.bin_edges@.len() ==> self.bin_edges@[i] > x,
            decreases hi - lo,
        {
            let mid = lo + (hi - lo) / 2;
            if self.bin_edges[mid] <= x {
                proof {
                    assert forall|i: int| 0 <= i < mid + 1 implies self.bin_edges@[i] <= x by {
                        assert(self.bin_edges@[i] <= self.bin_edges@[mid as int]);
                    }
                }
                lo = mid + 1;
            } else {
                proof {
                    assert forall|i: int|
                        mid <= i < self.bin_edges@.len() implies self.bin_edges@[i] > x by {
                        assert(self.bin_edges@[mid as int] <= self.bin_edges@[i]);
                    }
                }
                hi = mid;
            }
        }
        proof {
            lemma_count_edges_le_split(self.bin_edges@, x, lo as int);
        }
        Some(lo)
    }

    fn num_bins(&self) -> (r: usize) {
        self.bin_edges.len() + 1
    }

    fn bin(&self, index: usize) -> (r: Option<BinInterval<i64>>) {
        let n = self.bin_edges.len();
        if index == 0 {
            Some(BinInterval::Underflow { end: self.bin_edges[0] })
        } else if index == n {
            Some(BinInterval::Overflow { start: self.bin_edges[n - 1] })
        } else if index < n {
            Some(
                BinInterval::Bin {
                    start: self.bin_edges[index - 1],
                    end: self.bin_edges[index],
                },
            )
        } else {
            None
        }
    }
}

/// Whether two edge lists are identical.
fn edges_eq(a: &Vec<i64>, b: &Vec<i64>) -> (r: bool)
    ensures
        r == (a@ == b@),
{
    if a.len() != b.len() {
        proof {
            assert(a@.len() != b@.len());
        }
        return false;
    }
    let mut k: usize = 0;
    while k < a.len()
        invariant
            k <= a@.len(),
            a@.len() == b@.len(),
            forall|m: int| 0 <= m < k ==> a@[m] == b@[m],
        decreases a@.len() - k,
    {
        if a[k] != b[k] {
            proof {
                assert(a@[k as int] != b@[k as int]);
            }
            return false;
        }
        k = k + 1;
    }
    proof {
        assert(a@ =~= b@);
    }
    true
}

/// When the first `k` edges are at or below `x` and the rest are above
/// it, exactly `k` edges are at or below `x`.
proof fn lemma_count_edges_le_split(s: Seq<i64>, x: i64, k: int)
    requires
        0 <= k <= s.len(),
        forall|i: int| 0 <= i < k ==> s[i] <= x,
        forall|i: int| k <= i < s.len() ==> s[i] > x,
    ensures
        count_edges_le(s, x) == k,
    decreases s.len(),
{
    if s.len() > 0 {
        if k == s.len() {
            lemma_count_edges_le_split(s.drop_last(), x, k - 1);
        } else {
            lemma_count_edges_le_split(s.drop_last(), x, k);
        }
    }
}

/// The count of edges at or below `x` never exceeds the number of edges.
pub proof fn lemma_count_edges_le_bounds(s: Seq<i64>, x: i64)
    ensures
        0 <= count_edges_le(s, x) <= s.len(),
    decreases s.len(),
{
    if s.len() > 0 {
        lemma_count_edges_le_bounds(s.drop_last(), x);
    }
}

/// On a sorted edge list, a coordinate at or above the first edge has a
/// positive count, and one below the last edge leaves at least one edge
/// uncounted.
pub proof fn lemma_count_edges_le_interior(s: Seq<i64>, x: i64)
    requires
        s.len() >= 1,
        sorted_ascending(s),
    ensures
        s[0] <= x ==> count_edges_le(s, x) >= 1,
        x < s.last() ==> count_edges_le(s, x) <= s.len() - 1,
    decreases s.len(),
{
    lemma_count_edges_le_bounds(s, x);
    let dl = s.drop_last();
    if s.len() == 1 {
        assert(s.last() == s[0]);
        lemma_count_edges_le_bounds(dl, x);
    } else {
        assert(sorted_ascending(dl)) by {
            assert forall|i: int, j: int| 0 <= i < j < dl.len() implies dl[i] <= dl[j] by {
                assert(dl[i] == s[i]);
                assert(dl[j] == s[j]);
            }
        }
        assert(dl[0] == s[0]);
        lemma_count_edges_le_interior(dl, x);
        lemma_count_edges_le_bounds(dl, x);
    }
}

/// Sort a list of edges into ascending order by repeatedly moving the
/// smallest remaining edge to the output.
fn sort_edges(input: Vec<i64>) -> (out: Vec<i64>)
    ensures
        sorted_ascending(out@),
        out@.to_multiset() == input@.to_multiset(),
        out@.len() == input@.len(),
{
    let ghost orig = input@.to_multiset();
    let mut rest = input;
    let mut out: Vec<i64> = Vec::new();
    while rest.len() > 0
        invariant
            out@.to_multiset().add(rest@.to_multiset()) =~= orig,
            out@.len() + rest@.len() == orig.len(),
            sorted_ascending(out@),
            forall|i: int, j: int|
                0 <= i < out@.len() && 0 <= j < rest@.len() ==> out@[i] <= rest@[j],
        decreases rest.len(),
    {
        let mut mi: usize = 0;
        let mut k: usize = 1;
        while k < rest.len()
            invariant
                rest@.len() > 0,
                mi < rest@.len(),
                k <= rest@.len(),
                forall|j: int| 0 <= j < k ==> rest@[mi as int] <= rest@[j],
            decreases rest.len() - k,
        {
            if rest[k] < rest[mi] {
                mi = k;
            }
            k = k + 1;
        }
        let ghost old_out = out@;
        let ghost old_rest = rest@;
        let v = rest.remove(mi);
        out.push(v);
        proof {
            assert(old_rest.to_multiset().count(v) >= 1) by {
                assert(old_rest.contains(v));
            }
            assert(out@.to_multiset().add(rest@.to_multiset()) =~= orig);
            assert forall|i: int, j: int|
                0 <= i < out@.len() && 0 <= j < rest@.len() implies out@[i] <= rest@[j] by {
                if j < mi as int {
                    assert(rest@[j] == old_rest[j]);
                } else {
                    assert(rest@[j] == old_rest[j + 1]);
                }
            }
        }
    }
    proof {
        assert(rest@.to_multiset() =~= Multiset::<i64>::empty());
        assert(out@.to_multiset() =~= orig);
    }
    out
}

} // verus!
