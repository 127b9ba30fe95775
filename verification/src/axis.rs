//! Axes for N-dimensional histograms.
//!
//! An axis maps a coordinate to a linear bin index and maps a bin index
//! back to the interval of coordinates that the bin covers.

use vstd::prelude::*;

pub mod bininterval;
pub mod binrange;
pub mod category;
pub mod categorynoflow;
pub mod uniform;
pub mod uniformcyclic;
pub mod uniformnoflow;
pub mod variable;
pub mod variablecyclic;
pub mod variablenoflow;

pub use bininterval::BinInterval;
pub use category::Category;
pub use category::Value;
pub use categorynoflow::CategoryNoFlow;
pub use bininterval::SingleValueBinInterval;
pub use uniform::Uniform;
pub use uniformcyclic::UniformCyclic;
pub use uniformnoflow::UniformNoFlow;
pub use variable::Variable;
pub use variablecyclic::VariableCyclic;
pub use variablenoflow::VariableNoFlow;

verus! {

/// A wrap-around axis with equal-sized bins; a shorter name for
/// [`UniformCyclic`].
pub type Cyclic = UniformCyclic;

/// One dimension of an N-dimensional histogram.
///
/// An axis is a mapping from a coordinate space to a linear bin index,
/// together with the inverse mapping from a bin index to the interval of
/// coordinates that the bin covers.  Every index below `num_bins()` names
/// a bin; `index` returns `None` only for coordinates that this axis does
/// not represent at all.
pub trait Axis: Sized {
    /// The type of a location on this axis.
    type Coordinate;

    /// The type of the interval of coordinates covered by one bin.
    type BinInterval;

    /// Whether this axis value is well formed.  Constructors only ever
    /// build well-formed axes.
    spec fn wf(&self) -> bool;

    /// Whether lookups on this axis never mutate it.  Only an axis in a
    /// growable mode answers `false`.
    spec fn fixed(&self) -> bool;

    /// The number of bins, including any underflow and overflow bins.
    spec fn spec_num_bins(&self) -> usize;

    /// The bin index for a coordinate.
    spec fn spec_index(&self, coordinate: &Self::Coordinate) -> Option<usize>;

    /// The interval covered by a bin index.
    spec fn spec_bin(&self, index: int) -> Option<Self::BinInterval>;

    /// Whether two axes of this type describe the same binning.
    spec fn same_binning(&self, other: &Self) -> bool;

    /// Compare the binning of two axes of the same type.  Histograms may
    /// only be combined when their axes have the same binning.
    fn binning_eq(&self, other: &Self) -> (r: bool)
        requires
            self.wf(),
            other.wf(),
        ensures
            r == self.same_binning(other),
    ;

    /// Every axis has the same binning as itself.
    proof fn same_binning_reflexive(&self)
        ensures
            self.same_binning(self),
    ;

    /// Axes with the same binning have the same number of bins.
    proof fn same_binning_same_bins(&self, other: &Self)
        requires
            self.wf(),
            other.wf(),
            self.same_binning(other),
        ensures
            self.spec_num_bins() == other.spec_num_bins(),
    ;

    /// Map a coordinate to its bin index.  Returns `None` when the
    /// coordinate is not represented by this axis.
    fn index(&self, coordinate: &Self::Coordinate) -> (r: Option<usize>)
        requires
            self.wf(),
        ensures
            r == self.spec_index(coordinate),
            r is Some ==> r->0 < self.spec_num_bins(),
    ;

    /// The number of bins on this axis, including any underflow and
    /// overflow bins.
    fn num_bins(&self) -> (r: usize)
        requires
            self.wf(),
        ensures
            r == self.spec_num_bins(),
    ;

    /// Map a bin index to the interval of coordinates it covers.  Every
    /// index below `num_bins()` has an interval; larger indices have none.
    fn bin(&self, index: usize) -> (r: Option<Self::BinInterval>)
        requires
            self.wf(),
        ensures
            r == self.spec_bin(index as int),
            r is Some <==> index < self.spec_num_bins(),
    ;

    /// Mutating lookup used on the fill path.  An axis in a growable mode
    /// may assign a fresh index to a previously unseen coordinate, growing
    /// `num_bins` by one; any other axis behaves exactly like `index`.
    fn lookup_or_insert(&mut self, coordinate: &Self::Coordinate) -> (r: Option<usize>)
        requires
            old(self).wf(),
        ensures
            final(self).wf(),
            old(self).spec_num_bins() <= final(self).spec_num_bins(),
            r == final(self).spec_index(coordinate),
            r is Some ==> r->0 < final(self).spec_num_bins(),
            old(self).fixed() ==> *final(self) == *old(self),
    {
        self.index(coordinate)
    }

    /// All bin indices of this axis, in ascending order.
    fn indices(&self) -> (r: Vec<usize>)
        requires
            self.wf(),
        ensures
            r@.len() == self.spec_num_bins(),
            forall|j: int| 0 <= j < r@.len() ==> r@[j] as int == j,
    {
        let n = self.num_bins();
        let mut out: Vec<usize> = Vec::new();
        let mut i: usize = 0;
        while i < n
            invariant
                self.wf(),
                i <= n,
                n == self.spec_num_bins(),
                out@.len() == i,
                forall|j: int| 0 <= j < out@.len() ==> out@[j] as int == j,
            decreases n - i,
        {
            out.push(i);
            i = i + 1;
        }
        out
    }

    /// All pairs of bin index and bin interval, in ascending index order.
    fn iter(&self) -> (r: Vec<(usize, Self::BinInterval)>)
        requires
            self.wf(),
        ensures
            r@.len() == self.spec_num_bins(),
            forall|j: int| #![trigger r@[j]]
                0 <= j < r@.len() ==> r@[j].0 as int == j && Some(r@[j].1) == self.spec_bin(j),
    {
        let n = self.num_bins();
        let mut out: Vec<(usize, Self::BinInterval)> = Vec::new();
        let mut i: usize = 0;
        while i < n
            invariant
                self.wf(),
                i <= n,
                n == self.spec_num_bins(),
                out@.len() == i,
                forall|j: int| #![trigger out@[j]]
                    0 <= j < out@.len() ==> out@[j].0 as int == j && Some(out@[j].1)
                        == self.spec_bin(j),
            decreases n - i,
        {
            let b = self.bin(i);
            match b {
                Some(interval) => {
                    out.push((i, interval));
                },
                None => {
                    proof {
                        assert(false);
                    }
                },
            }
            i = i + 1;
        }
        out
    }

    /// All bin intervals, in ascending index order.
    fn bins(&self) -> (r: Vec<Self::BinInterval>)
        requires
            self.wf(),
        ensures
            r@.len() == self.spec_num_bins(),
            forall|j: int| 0 <= j < r@.len() ==> Some(r@[j]) == self.spec_bin(j),
    {
        let n = self.num_bins();
        let mut out: Vec<Self::BinInterval> = Vec::new();
        let mut i: usize = 0;
        while i < n
            invariant
                self.wf(),
                i <= n,
                n == self.spec_num_bins(),
                out@.len() == i,
                forall|j: int| 0 <= j < out@.len() ==> Some(out@[j]) == self.spec_bin(j),
            decreases n - i,
        {
            let b = self.bin(i);
            match b {
                Some(interval) => {
                    out.push(interval);
                },
                None => {
                    proof {
                        assert(false);
                    }
                },
            }
            i = i + 1;
        }
        out
    }

    /// The number of dimensions this axis spans: 1 for a plain axis, and
    /// the number of member axes for a composition.
    fn num_dim(&self) -> (r: usize)
        requires
            self.wf(),
        ensures
            r >= 1,
    {
        1
    }
}

} // verus!
