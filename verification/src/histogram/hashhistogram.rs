//! The sparse histogram storage engine.

use vstd::prelude::*;

use crate::axes::Axes;
use crate::axis::Axis;
use crate::error::BinaryOperationError;
use crate::histogram::fill::Fill;
use crate::histogram::fill::FillWith;
use crate::histogram::fill::FillWithWeighted;
use crate::histogram::BinaryOp;
use crate::histogram::Combine;
use crate::histogram::Histogram;
use crate::histogram::Item;
use crate::histogram::Value;

verus! {

/// Whether entry keys are strictly increasing, so each bin index is
/// stored at most once.
pub open spec fn entries_sorted<V>(s: Seq<(usize, V)>) -> bool {
    forall|i: int, j: int| 0 <= i < j < s.len() ==> s[i].0 < s[j].0
}

/// Whether a value is stored for bin index `i`.
pub open spec fn entries_contain<V>(s: Seq<(usize, V)>, i: int) -> bool {
    exists|k: int| 0 <= k < s.len() && s[k].0 == i
}

/// The value stored for bin index `i`, if one is stored.
pub open spec fn spec_get<V>(s: Seq<(usize, V)>, i: int) -> Option<V> {
    if entries_contain(s, i) {
        Some(s[choose|k: int| 0 <= k < s.len() && s[k].0 == i].1)
    } else {
        None
    }
}

/// The value bin index `i` logically holds: the stored value, or the
/// default for an untouched bin.
pub open spec fn spec_logical<V: Value>(s: Seq<(usize, V)>, i: int) -> V {
    match spec_get(s, i) {
        Some(v) => v,
        None => V::spec_default(),
    }
}

/// When position `k` of a sorted entry list holds key `i`, the lookup of
/// `i` yields exactly that entry's value.
proof fn lemma_get_at<V>(s: Seq<(usize, V)>, i: int, k: int)
    requires
        entries_sorted(s),
        0 <= k < s.len(),
        s[k].0 == i,
    ensures
        spec_get(s, i) == Some(s[k].1),
    decreases s.len(),
{
    let j = choose|j: int| 0 <= j < s.len() && s[j].0 == i;
    if j < k {
        assert(s[j].0 < s[k].0);
    } else if k < j {
        assert(s[k].0 < s[j].0);
    }
}

/// Replacing the value at position `k` of a sorted entry list changes
/// the lookup of that entry's key and no other.
pub proof fn lemma_get_update<V>(s: Seq<(usize, V)>, k: int, v: V)
    requires
        entries_sorted(s),
        0 <= k < s.len(),
    ensures
        entries_sorted(s.update(k, (s[k].0, v))),
        spec_get(s.update(k, (s[k].0, v)), s[k].0 as int) == Some(v),
        forall|j: int| j != s[k].0 as int ==> spec_get(s.update(k, (s[k].0, v)), j) == spec_get(
            s,
            j,
        ),
{
    let t = s.update(k, (s[k].0, v));
    lemma_get_at(t, s[k].0 as int, k);
    assert forall|j: int| j != s[k].0 as int implies spec_get(t, j) == spec_get(s, j) by {
        if entries_contain(s, j) {
            let m = choose|m: int| 0 <= m < s.len() && s[m].0 == j;
            lemma_get_at(s, j, m);
            lemma_get_at(t, j, m);
        } else {
            if entries_contain(t, j) {
                let m = choose|m: int| 0 <= m < t.len() && t[m].0 == j;
                assert(s[m].0 == j);
            }
        }
    }
}

/// Inserting a fresh key at its sorted position keeps the entry list
/// sorted, makes the lookup of that key yield the new value, and changes
/// no other lookup.
proof fn lemma_get_insert<V>(s: Seq<(usize, V)>, p: int, key: usize, v: V)
    requires
        entries_sorted(s),
        0 <= p <= s.len(),
        forall|m: int| 0 <= m < p ==> s[m].0 < key,
        forall|m: int| p <= m < s.len() ==> s[m].0 > key,
    ensures
        entries_sorted(s.insert(p, (key, v))),
        spec_get(s.insert(p, (key, v)), key as int) == Some(v),
        forall|j: int| j != key as int ==> spec_get(s.insert(p, (key, v)), j) == spec_get(s, j),
{
    let t = s.insert(p, (key, v));
    assert forall|i: int, j: int| 0 <= i < j < t.len() implies t[i].0 < t[j].0 by {
        if i < p && j < p {
        } else if i < p && j == p {
        } else if i < p && j > p {
            assert(t[j] == s[j - 1]);
        } else if i == p {
            assert(t[j] == s[j - 1]);
        } else {
            assert(t[i] == s[i - 1]);
            assert(t[j] == s[j - 1]);
        }
    }
    lemma_get_at(t, key as int, p);
    assert forall|j: int| j != key as int implies spec_get(t, j) == spec_get(s, j) by {
        if entries_contain(s, j) {
            let m = choose|m: int| 0 <= m < s.len() && s[m].0 == j;
            lemma_get_at(s, j, m);
            if m < p {
                lemma_get_at(t, j, m);
            } else {
                assert(t[m + 1] == s[m]);
                lemma_get_at(t, j, m + 1);
            }
        } else {
            if entries_contain(t, j) {
                let m = choose|m: int| 0 <= m < t.len() && t[m].0 == j;
                if m < p {
                    assert(s[m].0 == j);
                } else if m > p {
                    assert(s[m - 1].0 == j);
                }
            }
        }
    }
}

/// A sparse histogram that stores only the bins that have been touched,
/// as a list of index and value pairs kept in ascending index order.
/// Untouched bins logically hold the default value without taking any
/// memory.
#[derive(Clone, Debug)]
pub struct HashHistogram<A, V> {
    /// The axes that map coordinates to bin indices.
    pub axes: A,
    /// The touched bins, as pairs of bin index and accumulated value, in
    /// ascending index order.
    pub entries: Vec<(usize, V)>,
}

impl<A: Axes, V: Value> Histogram<A, V> for HashHistogram<A, V> {
    open spec fn spec_axes(&self) -> A {
        self.axes
    }

    open spec fn wf(&self) -> bool {
        &&& self.axes.wf()
        &&& entries_sorted(self.entries@)
        &&& forall|k: int|
            0 <= k < self.entries@.len() ==> self.entries@[k].0 < self.axes.spec_num_bins()
    }

    open spec fn spec_value_at(&self, index: int) -> Option<V> {
        spec_get(self.entries@, index)
    }

    proof fn wf_implies_axes_wf(&self) {
    }

    fn axes(&self) -> (r: &A) {
        &self.axes
    }

    fn value_at_index(&self, index: usize) -> (r: Option<&V>) {
        match self.find_key(index) {
            Some(p) => Some(&self.entries[p].1),
            None => None,
        }
    }
}

impl<A: Axes, V: Value> HashHistogram<A, V> {
    /// Build a sparse histogram over the given axes, with no bin
    /// touched.
    pub fn new(axes: A) -> (r: Self)
        requires
            axes.wf(),
        ensures
            r.wf(),
            r.axes == axes,
            r.entries@.len() == 0,
    {
        HashHistogram { axes, entries: Vec::new() }
    }

    /// The position of the entry holding the given bin index, if the bin
    /// has been touched.
    fn find_key(&self, index: usize) -> (r: Option<usize>)
        requires
            entries_sorted(self.entries@),
        ensures
            match r {
                Some(p) => 0 <= p < self.entries@.len() && self.entries@[p as int].0 == index
                    && spec_get(self.entries@, index as int) == Some(self.entries@[p as int].1),
                None => spec_get(self.entries@, index as int) is None,
            },
    {
        let mut k: usize = 0;
        while k < self.entries.len()
            invariant
                entries_sorted(self.entries@),
                k <= self.entries@.len(),
                forall|m: int| 0 <= m < k ==> self.entries@[m].0 != index,
            decreases self.entries@.len() - k,
        {
            if self.entries[k].0 == index {
                proof {
                    lemma_get_at(self.entries@, index as int, k as int);
                }
                return Some(k);
            }
            k = k + 1;
        }
        None
    }

    /// The position at which a fresh entry with the given bin index
    /// belongs, so that the entry list stays in ascending index order.
    fn insert_position(&self, index: usize) -> (p: usize)
        requires
            entries_sorted(self.entries@),
        ensures
            p <= self.entries@.len(),
            forall|m: int| 0 <= m < p ==> self.entries@[m].0 < index,
            forall|m: int| p <= m < self.entries@.len() ==> self.entries@[m].0 >= index,
    {
        let mut p: usize = 0;
        while p < self.entries.len() && self.entries[p].0 < index
            invariant
                p <= self.entries@.len(),
                forall|m: int| 0 <= m < p ==> self.entries@[m].0 < index,
            decreases self.entries@.len() - p,
        {
            p = p + 1;
        }
        proof {
            assert forall|m: int|
                p <= m < self.entries@.len() implies self.entries@[m].0 >= index by {
                if p < self.entries@.len() && p < m {
                    assert(self.entries@[p as int].0 < self.entries@[m].0);
                }
            }
        }
        p
    }

    /// Store `value` for bin `index`, replacing the stored value or
    /// inserting a fresh entry.
    fn store(&mut self, index: usize, value: V)
        requires
            old(self).wf(),
            index < old(self).axes.spec_num_bins(),
        ensures
            final(self).wf(),
            final(self).axes == old(self).axes,
            spec_get(final(self).entries@, index as int) == Some(value),
            forall|j: int| j != index as int ==> spec_get(final(self).entries@, j) == spec_get(
                old(self).entries@,
                j,
            ),
    {
        match self.find_key(index) {
            Some(p) => {
                proof {
                    lemma_get_update(self.entries@, p as int, value);
                }
                let slot = &mut self.entries[p];
                *slot = (index, value);
            },
            None => {
                let p = self.insert_position(index);
                proof {
                    assert forall|m: int|
                        p <= m < self.entries@.len() implies self.entries@[m].0 > index by {
                        if self.entries@[m].0 == index {
                            lemma_get_at(self.entries@, index as int, m);
                        }
                    }
                    lemma_get_insert(self.entries@, p as int, index, value);
                }
                self.entries.insert(p, (index, value));
            },
        }
    }

    /// The value bin `index` logically holds: the stored value, or the
    /// default for an untouched bin.
    fn logical_value(&self, index: usize) -> (r: V)
        requires
            entries_sorted(self.entries@),
        ensures
            r == spec_logical::<V>(self.entries@, index as int),
    {
        match self.find_key(index) {
            Some(p) => self.entries[p].1.clone_value(),
            None => V::default_value(),
        }
    }

    /// The accumulated values of the touched bins, in ascending index
    /// order.
    pub fn values(&self) -> (r: Vec<V>)
        requires
            self.wf(),
        ensures
            r@.len() == self.entries@.len(),
            forall|j: int| 0 <= j < r@.len() ==> r@[j] == self.entries@[j].1,
    {
        let n = self.entries.len();
        let mut out: Vec<V> = Vec::new();
        let mut i: usize = 0;
        while i < n
            invariant
                i <= n,
                n == self.entries@.len(),
                out@.len() == i,
                forall|j: int| 0 <= j < out@.len() ==> out@[j] == self.entries@[j].1,
            decreases n - i,
        {
            out.push(self.entries[i].1.clone_value());
            i = i + 1;
        }
        out
    }

    /// Mutable access to the stored value of a touched bin.  The bin must
    /// have been touched: an untouched bin stores nothing to point at.
    /// The new entry list replaces the value of that one entry;
    /// [`lemma_get_update`] turns this into facts about lookups.
    pub fn value_at_index_mut(&mut self, index: usize) -> (r: &mut V)
        requires
            old(self).wf(),
            spec_get(old(self).entries@, index as int) is Some,
        ensures
            Some(*r) == spec_get(old(self).entries@, index as int),
            final(self).axes == old(self).axes,
            exists|p: int|
                0 <= p < old(self).entries@.len() && old(self).entries@[p].0 == index
                    && final(self).entries@ == old(self).entries@.update(
                    p,
                    (index, *final(r)),
                ),
    {
        let p = match self.find_key(index) {
            Some(p) => p,
            None => {
                proof {
                    assert(false);
                }
                0
            },
        };
        let slot = &mut self.entries[p];
        &mut slot.1
    }

    /// All touched bins as items of index, bin interval, and accumulated
    /// value, in ascending index order.
    pub fn iter(&self) -> (r: Vec<Item<A::BinInterval, V>>)
        requires
            self.wf(),
        ensures
            r@.len() == self.entries@.len(),
            forall|j: int| #![trigger r@[j]]
                0 <= j < r@.len() ==> r@[j].index == self.entries@[j].0 && Some(r@[j].bin)
                    == self.axes.spec_bin(self.entries@[j].0 as int) && r@[j].value
                    == self.entries@[j].1,
    {
        let n = self.entries.len();
        let mut out: Vec<Item<A::BinInterval, V>> = Vec::new();
        let mut i: usize = 0;
        while i < n
            invariant
                self.wf(),
                i <= n,
                n == self.entries@.len(),
                out@.len() == i,
                forall|j: int| #![trigger out@[j]]
                    0 <= j < out@.len() ==> out@[j].index == self.entries@[j].0 && Some(out@[j].bin)
                        == self.axes.spec_bin(self.entries@[j].0 as int) && out@[j].value
                        == self.entries@[j].1,
            decreases n - i,
        {
            let key = self.entries[i].0;
            let b = match self.axes.bin(key) {
                Some(b) => b,
                None => {
                    proof {
                        assert(false);
                    }
                    return out;
                },
            };
            let v = self.entries[i].1.clone_value();
            out.push(Item { index: key, bin: b, value: v });
            i = i + 1;
        }
        out
    }

    /// Fill the bin that the coordinate falls in with unit weight.  When
    /// the coordinate is not covered by any bin, nothing changes.  A
    /// growable axis first assigns a fresh bin to an unseen coordinate.
    pub fn fill(&mut self, coordinate: &A::Coordinate) where V: Fill
        requires
            old(self).wf(),
            forall|k: int|
                0 <= k < old(self).entries@.len() ==> old(self).entries@[k].1.spec_can_fill(),
            V::spec_default().spec_can_fill(),
        ensures
            final(self).wf(),
            old(self).axes.spec_num_bins() <= final(self).axes.spec_num_bins(),
            old(self).axes.fixed() ==> final(self).axes == old(self).axes,
            match final(self).axes.spec_index(coordinate) {
                Some(i) => spec_get(final(self).entries@, i as int) == Some(
                    spec_logical::<V>(old(self).entries@, i as int).spec_fill(),
                ) && forall|j: int|
                    j != i as int ==> spec_get(final(self).entries@, j) == spec_get(
                        old(self).entries@,
                        j,
                    ),
                None => final(self).entries@ == old(self).entries@,
            },
    {
        let idx = self.axes.lookup_or_insert(coordinate);
        match idx {
            Some(i) => {
                let mut v = self.logical_value(i);
                v.fill();
                self.store(i, v);
            },
            None => {},
        }
    }

    /// Fill the bin that the coordinate falls in with a datum.  When the
    /// coordinate is not covered by any bin, nothing changes.
    pub fn fill_with<D>(&mut self, coordinate: &A::Coordinate, data: D) where V: FillWith<D>
        requires
            old(self).wf(),
            forall|k: int|
                0 <= k < old(self).entries@.len() ==> old(self).entries@[k].1.spec_can_fill_with(
                    data,
                ),
            V::spec_default().spec_can_fill_with(data),
        ensures
            final(self).wf(),
            old(self).axes.spec_num_bins() <= final(self).axes.spec_num_bins(),
            old(self).axes.fixed() ==> final(self).axes == old(self).axes,
            match final(self).axes.spec_index(coordinate) {
                Some(i) => spec_get(final(self).entries@, i as int) == Some(
                    spec_logical::<V>(old(self).entries@, i as int).spec_fill_with(data),
                ) && forall|j: int|
                    j != i as int ==> spec_get(final(self).entries@, j) == spec_get(
                        old(self).entries@,
                        j,
                    ),
                None => final(self).entries@ == old(self).entries@,
            },
    {
        let idx = self.axes.lookup_or_insert(coordinate);
        match idx {
            Some(i) => {
                let mut v = self.logical_value(i);
                v.fill_with(data);
                self.store(i, v);
            },
            None => {},
        }
    }

    /// Fill the bin that the coordinate falls in with a datum and an
    /// explicit weight.  When the coordinate is not covered by any bin,
    /// nothing changes.
    pub fn fill_with_weighted<D, W>(&mut self, coordinate: &A::Coordinate, data: D, weight: W) where
        V: FillWithWeighted<D, W>,

        requires
            old(self).wf(),
            forall|k: int|
                0 <= k < old(self).entries@.len() ==> old(self).entries@[
                    k
                ].1.spec_can_fill_with_weighted(data, weight),
            V::spec_default().spec_can_fill_with_weighted(data, weight),
        ensures
            final(self).wf(),
            old(self).axes.spec_num_bins() <= final(self).axes.spec_num_bins(),
            old(self).axes.fixed() ==> final(self).axes == old(self).axes,
            match final(self).axes.spec_index(coordinate) {
                Some(i) => spec_get(final(self).entries@, i as int) == Some(
                    spec_logical::<V>(old(self).entries@, i as int).spec_fill_with_weighted(
                        data,
                        weight,
                    ),
                ) && forall|j: int|
                    j != i as int ==> spec_get(final(self).entries@, j) == spec_get(
                        old(self).entries@,
                        j,
                    ),
                None => final(self).entries@ == old(self).entries@,
            },
    {
        let idx = self.axes.lookup_or_insert(coordinate);
        match idx {
            Some(i) => {
                let mut v = self.logical_value(i);
                v.fill_with_weighted(data, weight);
                self.store(i, v);
            },
            None => {},
        }
    }

    /// Combine two sparse histograms element-wise, consuming the
    /// left-hand storage.  The result stores the union of both operands'
    /// touched bins; a bin untouched on one side contributes the default
    /// value.  Fails with `BinaryOperationError` exactly when the two
    /// histograms do not have the same binning.
    pub fn combine(self, rhs: &Self, op: BinaryOp) -> (r: Result<Self, BinaryOperationError>) where
        V: Combine,

        requires
            self.wf(),
            rhs.wf(),
            self.axes.same_binning(&rhs.axes) ==> forall|j: int|
                #![trigger spec_logical::<V>(self.entries@, j)]
                0 <= j < self.axes.spec_num_bins() ==> spec_logical::<V>(
                    self.entries@,
                    j,
                ).spec_can_op(op, &spec_logical::<V>(rhs.entries@, j)),
        ensures
            !self.axes.same_binning(&rhs.axes) ==> r == Err::<Self, BinaryOperationError>(
                BinaryOperationError,
            ),
            self.axes.same_binning(&rhs.axes) ==> (r matches Ok(h) && h.wf() && h.axes == self.axes
                && forall|j: int|
                #![trigger spec_get(h.entries@, j)]
                spec_get(h.entries@, j) == if entries_contain(self.entries@, j)
                    || entries_contain(rhs.entries@, j) {
                    Some(
                        spec_logical::<V>(self.entries@, j).spec_op(
                            op,
                            &spec_logical::<V>(rhs.entries@, j),
                        ),
                    )
                } else {
                    None::<V>
                }),
    {
        if !self.axes.binning_eq(&rhs.axes) {
            return Err(BinaryOperationError);
        }
        proof {
            self.axes.same_binning_same_bins(&rhs.axes);
        }
        let ghost lhs = self.entries@;
        let mut out = self;
        let n = out.entries.len();
        let mut p: usize = 0;
        while p < n
            invariant
                out.wf(),
                out.axes == self.axes,
                p <= n,
                n == out.entries@.len(),
                rhs.wf(),
                lhs.len() == n,
                forall|m: int| 0 <= m < n ==> out.entries@[m].0 == lhs[m].0,
                forall|m: int| p <= m < n ==> out.entries@[m].1 == lhs[m].1,
                forall|j: int|
                    0 <= j < self.axes.spec_num_bins() ==> spec_logical::<V>(
                        lhs,
                        j,
                    ).spec_can_op(op, &spec_logical::<V>(rhs.entries@, j)),
                forall|m: int|
                    0 <= m < p ==> out.entries@[m].1 == spec_logical::<V>(
                        lhs,
                        lhs[m].0 as int,
                    ).spec_op(op, &spec_logical::<V>(rhs.entries@, lhs[m].0 as int)),
            decreases n - p,
        {
            let key = out.entries[p].0;
            let rv = rhs.logical_value(key);
            proof {
                lemma_get_at(lhs, key as int, p as int);
                assert(out.entries@[p as int].1 == lhs[p as int].1);
                assert(spec_logical::<V>(lhs, key as int) == lhs[p as int].1);
                assert(spec_logical::<V>(lhs, key as int).spec_can_op(
                    op,
                    &spec_logical::<V>(rhs.entries@, key as int),
                ));
                lemma_get_update(
                    out.entries@,
                    p as int,
                    out.entries@[p as int].1.spec_op(op, &spec_logical::<V>(rhs.entries@, key as int)),
                );
            }
            let nv = out.entries[p].1.op_value(op, &rv);
            let slot = &mut out.entries[p];
            *slot = (key, nv);
            p = p + 1;
        }
        proof {
            assert forall|j: int|
                entries_contain(lhs, j) implies spec_get(out.entries@, j) == Some(
                spec_logical::<V>(lhs, j).spec_op(op, &spec_logical::<V>(rhs.entries@, j)),
            ) by {
                let m = choose|m: int| 0 <= m < lhs.len() && lhs[m].0 == j;
                lemma_get_at(lhs, j, m);
                lemma_get_at(out.entries@, j, m);
            }
            assert forall|j: int|
                !entries_contain(lhs, j) implies spec_get(out.entries@, j) is None by {
                if entries_contain(out.entries@, j) {
                    let m = choose|m: int| 0 <= m < out.entries@.len() && out.entries@[m].0 == j;
                    assert(lhs[m].0 == j);
                }
            }
        }
        // Bins touched only on the right contribute the default value on
        // the left.
        let ghost mid = out.entries@;
        let rn = rhs.entries.len();
        let mut q: usize = 0;
        while q < rn
            invariant
                out.wf(),
                out.axes == self.axes,
                q <= rn,
                rn == rhs.entries@.len(),
                rhs.wf(),
                self.axes.same_binning(&rhs.axes),
                forall|j: int|
                    0 <= j < self.axes.spec_num_bins() ==> spec_logical::<V>(
                        lhs,
                        j,
                    ).spec_can_op(op, &spec_logical::<V>(rhs.entries@, j)),
                forall|j: int| #![trigger spec_get(out.entries@, j)]
                    spec_get(out.entries@, j) == if entries_contain(lhs, j) || (
                    entries_contain(rhs.entries@, j) && exists|m: int|
                        0 <= m < q && rhs.entries@[m].0 == j) {
                        Some(
                            spec_logical::<V>(lhs, j).spec_op(
                                op,
                                &spec_logical::<V>(rhs.entries@, j),
                            ),
                        )
                    } else {
                        None::<V>
                    },
            decreases rn - q,
        {
            let ghost q0 = q as int;
            let ghost out0 = out.entries@;
            let key = rhs.entries[q].0;
            proof {
                lemma_get_at(rhs.entries@, key as int, q as int);
                self.axes.same_binning_same_bins(&rhs.axes);
            }
            match out.find_key(key) {
                Some(_) => {
                    proof {
                        if !entries_contain(lhs, key as int) && !(entries_contain(
                            rhs.entries@,
                            key as int,
                        ) && exists|m: int| 0 <= m < q0 && rhs.entries@[m].0 == key as int) {
                            assert(spec_get(out.entries@, key as int) is None);
                            assert(false);
                        }
                    }
                },
                None => {
                    proof {
                        assert(spec_get(out.entries@, key as int) is None);
                        assert(!entries_contain(lhs, key as int));
                        assert(spec_logical::<V>(lhs, key as int) == V::spec_default());
                        assert(spec_logical::<V>(rhs.entries@, key as int) == rhs.entries@[
                            q as int
                        ].1);
                        assert(key < self.axes.spec_num_bins());
                        assert(spec_logical::<V>(lhs, key as int).spec_can_op(
                            op,
                            &spec_logical::<V>(rhs.entries@, key as int),
                        ));
                    }
                    let lv = V::default_value();
                    let nv = lv.op_value(op, &rhs.entries[q].1);
                    let pos = out.insert_position(key);
                    proof {
                        assert forall|m: int|
                            pos <= m < out.entries@.len() implies out.entries@[m].0 > key by {
                            if out.entries@[m].0 == key {
                                lemma_get_at(out.entries@, key as int, m);
                            }
                        }
                        lemma_get_insert(out.entries@, pos as int, key, nv);
                    }
                    out.entries.insert(pos, (key, nv));
                },
            }
            q = q + 1;
            proof {
                assert forall|j: int| #![trigger spec_get(out.entries@, j)]
                    spec_get(out.entries@, j) == (if entries_contain(lhs, j) || (
                    entries_contain(rhs.entries@, j) && exists|m: int|
                        0 <= m < q && rhs.entries@[m].0 == j) {
                        Some(
                            spec_logical::<V>(lhs, j).spec_op(
                                op,
                                &spec_logical::<V>(rhs.entries@, j),
                            ),
                        )
                    } else {
                        None::<V>
                    }) by {
                    let processed_before = entries_contain(lhs, j) || (entries_contain(
                        rhs.entries@,
                        j,
                    ) && exists|m: int| 0 <= m < q0 && rhs.entries@[m].0 == j);
                    assert(spec_get(out0, j) == (if processed_before {
                        Some(
                            spec_logical::<V>(lhs, j).spec_op(
                                op,
                                &spec_logical::<V>(rhs.entries@, j),
                            ),
                        )
                    } else {
                        None::<V>
                    }));
                    if j == key as int {
                        assert(rhs.entries@[q0].0 == key);
                        assert(entries_contain(rhs.entries@, j));
                        assert(exists|m: int| 0 <= m < q && rhs.entries@[m].0 == j);
                    } else {
                        assert(spec_get(out.entries@, j) == spec_get(out0, j));
                        if exists|m: int| 0 <= m < q && rhs.entries@[m].0 == j {
                            let m = choose|m: int| 0 <= m < q && rhs.entries@[m].0 == j;
                            assert(m != q0);
                            assert(0 <= m < q0 && rhs.entries@[m].0 == j);
                        }
                    }
                }
            }
        }
        proof {
            assert forall|j: int|
                entries_contain(rhs.entries@, j) implies exists|m: int|
                0 <= m < rn && rhs.entries@[m].0 == j by {
            }
        }
        Ok(out)
    }

    /// Combine another sparse histogram into this one element-wise, in
    /// place: each bin the right-hand histogram has touched is combined
    /// into the corresponding bin here, starting it from the default
    /// value when it was untouched.  Bins the right-hand histogram has
    /// not touched keep their stored values.  The two histograms must
    /// have the same binning: callers check this beforehand, as the
    /// consuming combinator does.
    pub fn combine_assign(&mut self, rhs: &Self, op: BinaryOp) where V: Combine
        requires
            old(self).wf(),
            rhs.wf(),
            old(self).axes.same_binning(&rhs.axes),
            forall|j: int|
                #![trigger spec_logical::<V>(old(self).entries@, j)]
                entries_contain(rhs.entries@, j) ==> spec_logical::<V>(
                    old(self).entries@,
                    j,
                ).spec_can_op(op, &spec_logical::<V>(rhs.entries@, j)),
        ensures
            final(self).wf(),
            final(self).axes == old(self).axes,
            forall|j: int| #![trigger spec_get(final(self).entries@, j)]
                spec_get(final(self).entries@, j) == if entries_contain(rhs.entries@, j) {
                    Some(
                        spec_logical::<V>(old(self).entries@, j).spec_op(
                            op,
                            &spec_logical::<V>(rhs.entries@, j),
                        ),
                    )
                } else {
                    spec_get(old(self).entries@, j)
                },
    {
        proof {
            self.axes.same_binning_same_bins(&rhs.axes);
        }
        let ghost lhs = self.entries@;
        let rn = rhs.entries.len();
        let mut q: usize = 0;
        while q < rn
            invariant
                self.wf(),
                self.axes == old(self).axes,
                q <= rn,
                rn == rhs.entries@.len(),
                rhs.wf(),
                old(self).axes.same_binning(&rhs.axes),
                forall|j: int|
                    #![trigger spec_logical::<V>(lhs, j)]
                    entries_contain(rhs.entries@, j) ==> spec_logical::<V>(lhs, j).spec_can_op(
                        op,
                        &spec_logical::<V>(rhs.entries@, j),
                    ),
                forall|j: int| #![trigger spec_get(self.entries@, j)]
                    spec_get(self.entries@, j) == if entries_contain(rhs.entries@, j) && exists|
                        m: int,
                    |
                        0 <= m < q && rhs.entries@[m].0 == j {
                        Some(
                            spec_logical::<V>(lhs, j).spec_op(
                                op,
                                &spec_logical::<V>(rhs.entries@, j),
                            ),
                        )
                    } else {
                        spec_get(lhs, j)
                    },
            decreases rn - q,
        {
            let ghost q0 = q as int;
            let ghost entries0 = self.entries@;
            let key = rhs.entries[q].0;
            proof {
                lemma_get_at(rhs.entries@, key as int, q as int);
                self.axes.same_binning_same_bins(&rhs.axes);
                if exists|m: int| 0 <= m < q0 && rhs.entries@[m].0 == key as int {
                    let m = choose|m: int| 0 <= m < q0 && rhs.entries@[m].0 == key as int;
                    assert(rhs.entries@[m].0 < rhs.entries@[q0].0);
                    assert(false);
                }
                assert(spec_get(entries0, key as int) == spec_get(lhs, key as int));
            }
            let mut v = self.logical_value(key);
            proof {
                assert(entries_contain(rhs.entries@, key as int));
                assert(v == spec_logical::<V>(lhs, key as int));
                assert(spec_logical::<V>(lhs, key as int).spec_can_op(
                    op,
                    &spec_logical::<V>(rhs.entries@, key as int),
                ));
                assert(rhs.entries@[q0].1 == spec_logical::<V>(rhs.entries@, key as int));
            }
            v = v.op_value(op, &rhs.entries[q].1);
            self.store(key, v);
            q = q + 1;
            proof {
                assert forall|j: int| #![trigger spec_get(self.entries@, j)]
                    spec_get(self.entries@, j) == (if entries_contain(rhs.entries@, j) && exists|
                        m: int,
                    |
                        0 <= m < q && rhs.entries@[m].0 == j {
                        Some(
                            spec_logical::<V>(lhs, j).spec_op(
                                op,
                                &spec_logical::<V>(rhs.entries@, j),
                            ),
                        )
                    } else {
                        spec_get(lhs, j)
                    }) by {
                    if j == key as int {
                        assert(rhs.entries@[q0].0 == key);
                        assert(exists|m: int| 0 <= m < q && rhs.entries@[m].0 == j);
                    } else {
                        assert(spec_get(self.entries@, j) == spec_get(entries0, j));
                        if exists|m: int| 0 <= m < q && rhs.entries@[m].0 == j {
                            let m = choose|m: int| 0 <= m < q && rhs.entries@[m].0 == j;
                            assert(m != q0);
                            assert(0 <= m < q0 && rhs.entries@[m].0 == j);
                        }
                    }
                }
            }
        }
    }
}

} // verus!
