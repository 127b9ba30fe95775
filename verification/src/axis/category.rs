//! An axis over a set of discrete values, with an overflow bin or a
//! growable mode.

use vstd::prelude::*;

use crate::axis::Axis;
use crate::axis::SingleValueBinInterval;

verus! {

/// A type that can label a bin of a [`Category`] axis: it can be
/// compared, cloned, and abstracted by its deep view.
pub trait Value: Sized + DeepView {
    /// Whether two values are the same category.
    fn eq_value(&self, other: &Self) -> (r: bool)
        ensures
            r <==> self.deep_view() == other.deep_view(),
    ;

    /// An owned copy of this value.
    fn clone_value(&self) -> (r: Self)
        ensures
            r == *self,
    ;
}

impl Value for String {
    fn eq_value(&self, other: &Self) -> (r: bool) {
        *self == *other
    }

    fn clone_value(&self) -> (r: Self) {
        self.clone()
    }
}

impl<'a> Value for &'a str {
    fn eq_value(&self, other: &Self) -> (r: bool) {
        let a = (*self).to_owned();
        let b = (*other).to_owned();
        a == b
    }

    fn clone_value(&self) -> (r: Self) {
        *self
    }
}

impl Value for i64 {
    fn eq_value(&self, other: &Self) -> (r: bool) {
        *self == *other
    }

    fn clone_value(&self) -> (r: Self) {
        *self
    }
}

impl Value for u32 {
    fn eq_value(&self, other: &Self) -> (r: bool) {
        *self == *other
    }

    fn clone_value(&self) -> (r: Self) {
        *self
    }
}

/// A category value that can render itself for display.
pub trait AsText {
    /// This value as text.
    fn as_text(&self) -> String;
}

impl AsText for String {
    fn as_text(&self) -> (r: String) {
        self.clone()
    }
}

impl<'a> AsText for &'a str {
    fn as_text(&self) -> (r: String) {
        (*self).to_owned()
    }
}

/// Whether some element of `s` has deep view `d`.
pub open spec fn contains_value<T: DeepView>(s: Seq<T>, d: <T as DeepView>::V) -> bool {
    exists|i: int| 0 <= i < s.len() && s[i].deep_view() == d
}

/// The elements of `s` with later duplicates removed, in first-seen
/// order.
pub open spec fn dedup_values<T: DeepView>(s: Seq<T>) -> Seq<T>
    decreases s.len(),
{
    if s.len() == 0 {
        Seq::empty()
    } else {
        let prefix = dedup_values(s.drop_last());
        if contains_value(prefix, s.last().deep_view()) {
            prefix
        } else {
            prefix.push(s.last())
        }
    }
}

/// Whether the deep views of the elements of `s` are pairwise distinct.
pub open spec fn distinct_values<T: DeepView>(s: Seq<T>) -> bool {
    forall|i: int, j: int|
        0 <= i < j < s.len() ==> s[i].deep_view() != s[j].deep_view()
}

/// The index of the element of `s` whose deep view is `d`, when there is
/// one.
pub open spec fn spec_value_index<T: DeepView>(s: Seq<T>, d: <T as DeepView>::V) -> Option<int> {
    if contains_value(s, d) {
        Some(choose|i: int| 0 <= i < s.len() && s[i].deep_view() == d)
    } else {
        None
    }
}

/// Deduplication keeps exactly the values of the input, keeps them
/// pairwise distinct, and never grows the sequence.
pub proof fn lemma_dedup_values<T: DeepView>(s: Seq<T>)
    ensures
        distinct_values(dedup_values(s)),
        dedup_values(s).len() <= s.len(),
        forall|d: <T as DeepView>::V| contains_value(dedup_values(s), d) == contains_value(s, d),
    decreases s.len(),
{
    if s.len() > 0 {
        lemma_dedup_values(s.drop_last());
        let prefix = dedup_values(s.drop_last());
        assert forall|d: <T as DeepView>::V|
            contains_value(dedup_values(s), d) == contains_value(s, d) by {
            if contains_value(dedup_values(s), d) {
                let i = choose|i: int|
                    0 <= i < dedup_values(s).len() && dedup_values(s)[i].deep_view() == d;
                if i < prefix.len() {
                    assert(contains_value(prefix, d));
                    let j = choose|j: int| 0 <= j < prefix.len() && prefix[j].deep_view() == d;
                    assert(contains_value(s.drop_last(), d));
                    let k = choose|k: int|
                        0 <= k < s.drop_last().len() && s.drop_last()[k].deep_view() == d;
                    assert(s[k].deep_view() == d);
                } else {
                    assert(s.last().deep_view() == d);
                    assert(s[s.len() - 1].deep_view() == d);
                }
            }
            if contains_value(s, d) {
                let i = choose|i: int| 0 <= i < s.len() && s[i].deep_view() == d;
                if i < s.len() - 1 {
                    assert(s.drop_last()[i].deep_view() == d);
                    assert(contains_value(s.drop_last(), d));
                    let j = choose|j: int| 0 <= j < prefix.len() && prefix[j].deep_view() == d;
                    assert(dedup_values(s)[j].deep_view() == d);
                    assert(contains_value(dedup_values(s), d));
                } else {
                    if contains_value(prefix, s.last().deep_view()) {
                        assert(contains_value(dedup_values(s), d));
                    } else {
                        assert(dedup_values(s).last().deep_view() == d);
                        assert(contains_value(dedup_values(s), d));
                    }
                }
            }
        }
    }
}

/// An axis over a set of discrete values.
///
/// Each distinct value maps to one bin, in first-seen order.  A closed
/// axis carries one trailing overflow bin for all other values; a
/// growable axis instead assigns a fresh bin to each previously unseen
/// value on the fill path.
#[derive(Clone, Debug)]
pub struct Category<T> {
    /// The known category values, pairwise distinct, in first-seen
    /// order.
    pub values: Vec<T>,
    /// Whether unseen values are added on the fill path instead of
    /// falling in the overflow bin.
    pub growable: bool,
}

impl<T: Value> Category<T> {
    /// Build a closed category axis from a list of values; duplicates
    /// are dropped, keeping first-seen order.  Values not in the list
    /// map to the trailing overflow bin.
    pub fn new(values: Vec<T>) -> (r: Self)
        requires
            values@.len() < usize::MAX,
        ensures
            r.wf(),
            !r.growable,
            r.values@ == dedup_values(values@),
    {
        proof {
            lemma_dedup_values(values@);
        }
        Category { values: dedup_exec(&values), growable: false }
    }

    /// Build a growable category axis from a list of starting values;
    /// duplicates are dropped, keeping first-seen order.  The axis has
    /// no overflow bin: an unseen value gets a fresh bin when it is
    /// first filled.
    pub fn growable(values: Vec<T>) -> (r: Self)
        requires
            values@.len() < usize::MAX,
        ensures
            r.wf(),
            r.growable,
            r.values@ == dedup_values(values@),
    {
        proof {
            lemma_dedup_values(values@);
        }
        Category { values: dedup_exec(&values), growable: true }
    }

    /// The number of known category values, excluding any overflow bin.
    pub fn len(&self) -> (r: usize)
        ensures
            r == self.values@.len(),
    {
        self.values.len()
    }

    /// Find the known value equal to `coordinate`, without mutating the
    /// axis.
    fn position_of(&self, coordinate: &T) -> (r: Option<usize>)
        requires
            self.wf(),
        ensures
            r is Some ==> 0 <= r->0 < self.values@.len() && self.values@[
                r->0 as int
            ].deep_view() == coordinate.deep_view(),
            r is None ==> !contains_value(self.values@, coordinate.deep_view()),
    {
        let mut k: usize = 0;
        while k < self.values.len()
            invariant
                k <= self.values@.len(),
                forall|m: int| 0 <= m < k ==> self.values@[m].deep_view() != coordinate.deep_view(),
            decreases self.values@.len() - k,
        {
            if self.values[k].eq_value(coordinate) {
                return Some(k);
            }
            k = k + 1;
        }
        None
    }

    /// Find the bin for `coordinate`, assigning a fresh bin to an unseen
    /// value when the axis is growable.  On a growable axis the lookup
    /// succeeds for every value, and `num_bins` never decreases.
    pub fn grow_lookup(&mut self, coordinate: &T) -> (r: Option<usize>)
        requires
            old(self).wf(),
        ensures
            final(self).wf(),
            final(self).growable == old(self).growable,
            old(self).spec_num_bins() <= final(self).spec_num_bins(),
            r == final(self).spec_index(coordinate),
            r is Some ==> r->0 < final(self).spec_num_bins(),
            !old(self).growable ==> *final(self) == *old(self),
            old(self).growable && old(self).values@.len() + 1 < usize::MAX ==> r is Some,
            r is None ==> *final(self) == *old(self),
    {
        let found = self.position_of(coordinate);
        match found {
            Some(k) => {
                proof {
                    lemma_found_position(self.values@, coordinate.deep_view(), k as int);
                }
                Some(k)
            },
            None => {
                if !self.growable {
                    Some(self.values.len())
                } else {
                    if self.values.len() + 1 < usize::MAX {
                        let ghost old_values = self.values@;
                        let n = self.values.len();
                        self.values.push(coordinate.clone_value());
                        proof {
                            assert forall|i: int, j: int|
                                0 <= i < j < self.values@.len() implies self.values@[
                                i
                            ].deep_view() != self.values@[j].deep_view() by {
                                if j < old_values.len() {
                                    assert(self.values@[i] == old_values[i]);
                                    assert(self.values@[j] == old_values[j]);
                                } else {
                                    assert(self.values@[i] == old_values[i]);
                                    assert(self.values@[j].deep_view()
                                        == coordinate.deep_view());
                                }
                            }
                            lemma_found_position(self.values@, coordinate.deep_view(), n as int);
                        }
                        Some(n)
                    } else {
                        None
                    }
                }
            },
        }
    }
}

/// When position `k` of a distinct-valued sequence holds deep view `d`,
/// the index of `d` in the sequence is exactly `k`.
proof fn lemma_found_position<T: DeepView>(s: Seq<T>, d: <T as DeepView>::V, k: int)
    requires
        distinct_values(s),
        0 <= k < s.len(),
        s[k].deep_view() == d,
    ensures
        spec_value_index(s, d) == Some(k),
{
    assert(contains_value(s, d));
    let j = choose|i: int| 0 <= i < s.len() && s[i].deep_view() == d;
    if j < k {
        assert(s[j].deep_view() != s[k].deep_view());
    } else if k < j {
        assert(s[k].deep_view() != s[j].deep_view());
    }
}

/// Whether `values` holds an element equal to `c`.
fn contains_exec<T: Value>(values: &Vec<T>, c: &T) -> (r: bool)
    ensures
        r == contains_value(values@, c.deep_view()),
{
    let mut k: usize = 0;
    while k < values.len()
        invariant
            k <= values@.len(),
            forall|m: int| 0 <= m < k ==> values@[m].deep_view() != c.deep_view(),
        decreases values@.len() - k,
    {
        if values[k].eq_value(c) {
            return true;
        }
        k = k + 1;
    }
    false
}

/// Copy `values` with later duplicates removed, keeping first-seen
/// order.
fn dedup_exec<T: Value>(values: &Vec<T>) -> (out: Vec<T>)
    ensures
        out@ == dedup_values(values@),
{
    let mut out: Vec<T> = Vec::new();
    let mut i: usize = 0;
    proof {
        assert(values@.take(0) =~= Seq::<T>::empty());
    }
    while i < values.len()
        invariant
            i <= values@.len(),
            out@ == dedup_values(values@.take(i as int)),
        decreases values@.len() - i,
    {
        let ghost prefix = values@.take(i as int);
        let c = &values[i];
        let seen = contains_exec(&out, c);
        proof {
            assert(values@.take(i as int + 1).drop_last() =~= prefix);
            assert(values@.take(i as int + 1).last() == values@[i as int]);
        }
        if !seen {
            out.push(c.clone_value());
        }
        i = i + 1;
    }
    proof {
        assert(values@.take(values@.len() as int) =~= values@);
    }
    out
}

impl<T: Value> Axis for Category<T> {
    type Coordinate = T;

    type BinInterval = SingleValueBinInterval<T>;

    open spec fn wf(&self) -> bool {
        &&& distinct_values(self.values@)
        &&& self.values@.len() + 1 <= usize::MAX
    }

    open spec fn fixed(&self) -> bool {
        !self.growable
    }

    open spec fn same_binning(&self, other: &Self) -> bool {
        &&& self.growable == other.growable
        &&& self.values@.len() == other.values@.len()
        &&& forall|m: int|
            0 <= m < self.values@.len() ==> self.values@[m].deep_view() == other.values@[
                m
            ].deep_view()
    }

    fn binning_eq(&self, other: &Self) -> (r: bool) {
        category_eq(self, other)
    }

    proof fn same_binning_reflexive(&self) {
    }

    proof fn same_binning_same_bins(&self, other: &Self) {
    }

    open spec fn spec_num_bins(&self) -> usize {
        if self.growable {
            self.values@.len() as usize
        } else {
            (self.values@.len() + 1) as usize
        }
    }

    open spec fn spec_index(&self, coordinate: &T) -> Option<usize> {
        match spec_value_index(self.values@, coordinate.deep_view()) {
            Some(i) => Some(i as usize),
            None => if self.growable {
                None
            } else {
                Some(self.values@.len() as usize)
            },
        }
    }

    open spec fn spec_bin(&self, index: int) -> Option<SingleValueBinInterval<T>> {
        if 0 <= index < self.values@.len() {
            Some(SingleValueBinInterval::Bin { value: self.values@[index] })
        } else if !self.growable && index == self.values@.len() {
            Some(SingleValueBinInterval::Overflow)
        } else {
            None
        }
    }

    fn index(&self, coordinate: &T) -> (r: Option<usize>) {
        match self.position_of(coordinate) {
            Some(k) => {
                proof {
                    lemma_found_position(self.values@, coordinate.deep_view(), k as int);
                }
                Some(k)
            },
            None => {
                if self.growable {
                    None
                } else {
                    Some(self.values.len())
                }
            },
        }
    }

    fn num_bins(&self) -> (r: usize) {
        if self.growable {
            self.values.len()
        } else {
            self.values.len() + 1
        }
    }

    fn bin(&self, index: usize) -> (r: Option<SingleValueBinInterval<T>>) {
        if index < self.values.len() {
            Some(SingleValueBinInterval::Bin { value: self.values[index].clone_value() })
        } else if !self.growable && index == self.values.len() {
            Some(SingleValueBinInterval::Overflow)
        } else {
            None
        }
    }

    fn lookup_or_insert(&mut self, coordinate: &T) -> (r: Option<usize>) {
        self.grow_lookup(coordinate)
    }
}

/// Whether two category axes are in the same mode and hold the same
/// values in the same order.
fn category_eq<T: Value>(a: &Category<T>, b: &Category<T>) -> (r: bool)
    ensures
        r == a.same_binning(b),
{
    if a.growable != b.growable || a.values.len() != b.values.len() {
        return false;
    }
    let mut k: usize = 0;
    while k < a.values.len()
        invariant
            k <= a.values@.len(),
            a.values@.len() == b.values@.len(),
            a.growable == b.growable,
            forall|m: int| 0 <= m < k ==> a.values@[m].deep_view() == b.values@[m].deep_view(),
        decreases a.values@.len() - k,
    {
        if !a.values[k].eq_value(&b.values[k]) {
            return false;
        }
        k = k + 1;
    }
    true
}

impl<T: Value + AsText> Category<T> {
    /// This axis as text: its bins, comma separated, between braces.
    pub fn to_string(&self) -> String {
        let mut out = String::new();
        out.append("{");
        let mut k: usize = 0;
        while k < self.values.len()
            invariant
                k <= self.values@.len(),
            decreases self.values@.len() - k,
        {
            if k > 0 {
                out.append(", ");
            }
            out.append("{");
            let t = self.values[k].as_text();
            out.append(t.as_str());
            out.append("}");
            k = k + 1;
        }
        if !self.growable {
            if self.values.len() > 0 {
                out.append(", ");
            }
            out.append("{overflow}");
        }
        out.append("}");
        out
    }
}

impl<T: Value> PartialEq for Category<T> {
    /// Two category axes are equal when they are in the same mode and
    /// hold the same values in the same order.
    fn eq(&self, other: &Self) -> (r: bool) {
        category_eq(self, other)
    }
}

impl<T: Value> vstd::std_specs::cmp::PartialEqSpecImpl for Category<T> {
    open spec fn obeys_eq_spec() -> bool {
        true
    }

    open spec fn eq_spec(&self, other: &Self) -> bool {
        &&& self.growable == other.growable
        &&& self.values@.len() == other.values@.len()
        &&& forall|m: int|
            0 <= m < self.values@.len() ==> self.values@[m].deep_view() == other.values@[
                m
            ].deep_view()
    }
}

} // verus!
