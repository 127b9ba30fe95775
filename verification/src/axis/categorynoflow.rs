//! An axis over a set of discrete values, without an overflow bin.

use vstd::prelude::*;

use crate::axis::category::contains_value;
use crate::axis::category::dedup_values;
use crate::axis::category::spec_value_index;
use crate::axis::category::Value;
use crate::axis::Axis;
use crate::axis::Category;
use crate::axis::SingleValueBinInterval;

verus! {

/// An axis over a fixed set of discrete values, with no overflow bin:
/// a value outside the set maps to no bin at all.
#[derive(Clone, Debug)]
pub struct CategoryNoFlow<T> {
    /// The underlying closed category axis.
    pub axis: Category<T>,
}

impl<T: Value> CategoryNoFlow<T> {
    /// Build a category axis without an overflow bin from a list of
    /// values; duplicates are dropped, keeping first-seen order.
    pub fn new(values: Vec<T>) -> (r: Self)
        requires
            values@.len() < usize::MAX,
        ensures
            r.wf(),
            r.axis.values@ == dedup_values(values@),
    {
        CategoryNoFlow { axis: Category::new(values) }
    }

    /// The number of category values.
    pub fn len(&self) -> (r: usize)
        ensures
            r == self.axis.values@.len(),
    {
        self.axis.len()
    }
}

impl<T: Value> Axis for CategoryNoFlow<T> {
    type Coordinate = T;

    type BinInterval = SingleValueBinInterval<T>;

    open spec fn wf(&self) -> bool {
        &&& self.axis.wf()
        &&& !self.axis.growable
    }

    open spec fn fixed(&self) -> bool {
        true
    }

    open spec fn same_binning(&self, other: &Self) -> bool {
        self.axis.same_binning(&other.axis)
    }

    fn binning_eq(&self, other: &Self) -> (r: bool) {
        self.axis.binning_eq(&other.axis)
    }

    proof fn same_binning_reflexive(&self) {
    }

    proof fn same_binning_same_bins(&self, other: &Self) {
    }

    open spec fn spec_num_bins(&self) -> usize {
        self.axis.values@.len() as usize
    }

    open spec fn spec_index(&self, coordinate: &T) -> Option<usize> {
        match spec_value_index(self.axis.values@, coordinate.deep_view()) {
            Some(i) => Some(i as usize),
            None => None,
        }
    }

    open spec fn spec_bin(&self, index: int) -> Option<SingleValueBinInterval<T>> {
        if 0 <= index < self.axis.values@.len() {
            Some(SingleValueBinInterval::Bin { value: self.axis.values@[index] })
        } else {
            None
        }
    }

    fn index(&self, coordinate: &T) -> (r: Option<usize>) {
        let i = match self.axis.index(coordinate) {
            Some(i) => i,
            None => {
                proof {
                    assert(false);
                }
                0
            },
        };
        if i == self.axis.len() {
            None
        } else {
            Some(i)
        }
    }

    fn num_bins(&self) -> (r: usize) {
        self.axis.len()
    }

    fn bin(&self, index: usize) -> (r: Option<SingleValueBinInterval<T>>) {
        if index < self.axis.len() {
            self.axis.bin(index)
        } else {
            None
        }
    }
}

impl<T: Value + crate::axis::category::AsText> CategoryNoFlow<T> {
    /// This axis as text: its bins, comma separated, between braces.
    pub fn to_string(&self) -> String {
        self.axis.to_string()
    }
}

impl<T: Value> PartialEq for CategoryNoFlow<T> {
    /// Two axes are equal when they hold the same values in the same
    /// order.
    fn eq(&self, other: &Self) -> (r: bool) {
        self.axis == other.axis
    }
}

impl<T: Value> vstd::std_specs::cmp::PartialEqSpecImpl for CategoryNoFlow<T> {
    open spec fn obeys_eq_spec() -> bool {
        true
    }

    open spec fn eq_spec(&self, other: &Self) -> bool {
        &&& self.axis.growable == other.axis.growable
        &&& self.axis.values@.len() == other.axis.values@.len()
        &&& forall|m: int|
            0 <= m < self.axis.values@.len() ==> self.axis.values@[m].deep_view()
                == other.axis.values@[m].deep_view()
    }
}

} // verus!
