//! The dense histogram storage engine.

use vstd::prelude::*;

use crate::axes::Axes;
use crate::axis::Axis;
use crate::error::BinaryOperationError;
use crate::histogram::fill::Fill;
use crate::histogram::fill::FillWith;
use crate::histogram::fill::FillWithWeighted;
use crate::histogram::padded_values;
use crate::histogram::BinaryOp;
use crate::histogram::Combine;
use crate::histogram::Histogram;
use crate::histogram::Item;
use crate::histogram::Value;

verus! {

/// A histogram that stores one value per bin in a contiguous vector of
/// length `axes.num_bins()`, default-initialized at construction.
#[derive(Clone, Debug)]
pub struct VecHistogram<A, V> {
    /// The axes that map coordinates to bin indices.
    pub axes: A,
    /// One accumulated value per bin, indexed by linear bin index.
    pub values: Vec<V>,
}

impl<A: Axes, V: Value> Histogram<A, V> for VecHistogram<A, V> {
    open spec fn spec_axes(&self) -> A {
        self.axes
    }

    open spec fn wf(&self) -> bool {
        &&& self.axes.wf()
        &&& self.values@.len() == self.axes.spec_num_bins()
    }

    open spec fn spec_value_at(&self, index: int) -> Option<V> {
        if 0 <= index < self.values@.len() {
            Some(self.values@[index])
        } else {
            None
        }
    }

    proof fn wf_implies_axes_wf(&self) {
    }

    fn axes(&self) -> (r: &A) {
        &self.axes
    }

    fn value_at_index(&self, index: usize) -> (r: Option<&V>) {
        if index < self.values.len() {
            Some(&self.values[index])
        } else {
            None
        }
    }
}

impl<A: Axes, V: Value> VecHistogram<A, V> {
    /// Build a dense histogram over the given axes, with every bin at
    /// the default value.
    pub fn new(axes: A) -> (r: Self)
        requires
            axes.wf(),
        ensures
            r.wf(),
            r.axes == axes,
            r.values@.len() == axes.spec_num_bins(),
            forall|i: int| 0 <= i < r.values@.len() ==> r.values@[i] == V::spec_default(),
    {
        let n = axes.num_bins();
        let mut values: Vec<V> = Vec::new();
        while values.len() < n
            invariant
                values@.len() <= n,
                forall|i: int| 0 <= i < values@.len() ==> values@[i] == V::spec_default(),
            decreases n - values@.len(),
        {
            values.push(V::default_value());
        }
        VecHistogram { axes, values }
    }

    /// Mutable access to the value of the bin with the given index.  The
    /// index must name a bin.
    pub fn value_at_index_mut(&mut self, index: usize) -> (r: &mut V)
        requires
            old(self).wf(),
            index < old(self).values@.len(),
        ensures
            *r == old(self).values@[index as int],
            final(self).axes == old(self).axes,
            final(self).values@ == old(self).values@.update(index as int, *final(r)),
    {
        &mut self.values[index]
    }

    /// Mutable access to the value of the bin that the coordinate falls
    /// in.  The coordinate must fall in a bin.
    pub fn value_mut(&mut self, coordinate: &A::Coordinate) -> (r: &mut V)
        requires
            old(self).wf(),
            old(self).axes.spec_index(coordinate) is Some,
        ensures
            ({
                let i = old(self).axes.spec_index(coordinate)->0 as int;
                &&& *r == old(self).values@[i]
                &&& final(self).axes == old(self).axes
                &&& final(self).values@ == old(self).values@.update(i, *final(r))
            }),
    {
        let i = match self.axes.index(coordinate) {
            Some(i) => i,
            None => {
                proof {
                    assert(false);
                }
                0
            },
        };
        &mut self.values[i]
    }

    /// The accumulated values, one per bin, in bin index order.
    pub fn values(&self) -> (r: &Vec<V>)
        ensures
            r == &self.values,
    {
        &self.values
    }

    /// All bins as items of index, bin interval, and accumulated value,
    /// in bin index order.
    pub fn iter(&self) -> (r: Vec<Item<A::BinInterval, V>>)
        requires
            self.wf(),
        ensures
            r@.len() == self.values@.len(),
            forall|j: int| #![trigger r@[j]]
                0 <= j < r@.len() ==> r@[j].index as int == j && Some(r@[j].bin)
                    == self.axes.spec_bin(j) && r@[j].value == self.values@[j],
    {
        let n = self.values.len();
        let mut out: Vec<Item<A::BinInterval, V>> = Vec::new();
        let mut i: usize = 0;
        while i < n
            invariant
                self.wf(),
                i <= n,
                n == self.values@.len(),
                out@.len() == i,
                forall|j: int| #![trigger out@[j]]
                    0 <= j < out@.len() ==> out@[j].index as int == j && Some(out@[j].bin)
                        == self.axes.spec_bin(j) && out@[j].value == self.values@[j],
            decreases n - i,
        {
            let b = match self.axes.bin(i) {
                Some(b) => b,
                None => {
                    proof {
                        assert(false);
                    }
                    return out;
                },
            };
            let v = self.values[i].clone_value();
            out.push(Item { index: i, bin: b, value: v });
            i = i + 1;
        }
        out
    }

    /// Grow the value store with default values until it covers every
    /// bin of the axes.
    fn pad_to_num_bins(&mut self)
        requires
            old(self).axes.wf(),
            old(self).values@.len() <= old(self).axes.spec_num_bins(),
        ensures
            final(self).axes == old(self).axes,
            final(self).values@ == padded_values::<V>(
                old(self).values@,
                old(self).axes.spec_num_bins() as int,
            ),
            final(self).wf(),
    {
        let n = self.axes.num_bins();
        let ghost axes_snapshot = self.axes;
        while self.values.len() < n
            invariant
                self.axes == axes_snapshot,
                self.axes.wf(),
                n == self.axes.spec_num_bins(),
                old(self).values@.len() <= self.values@.len() <= n,
                self.values@ == padded_values::<V>(old(self).values@, self.values@.len() as int),
            decreases n - self.values@.len(),
        {
            self.values.push(V::default_value());
            proof {
                assert(self.values@ =~= padded_values::<V>(
                    old(self).values@,
                    self.values@.len() as int,
                ));
            }
        }
    }

    /// Fill the bin that the coordinate falls in with unit weight.  When
    /// the coordinate is not covered by any bin, nothing changes.  A
    /// growable axis first assigns a fresh, default-valued bin to an
    /// unseen coordinate.
    pub fn fill(&mut self, coordinate: &A::Coordinate) where V: Fill
        requires
            old(self).wf(),
            forall|i: int|
                0 <= i < old(self).values@.len() ==> old(self).values@[i].spec_can_fill(),
            V::spec_default().spec_can_fill(),
        ensures
            final(self).wf(),
            old(self).axes.spec_num_bins() <= final(self).axes.spec_num_bins(),
            old(self).axes.fixed() ==> final(self).axes == old(self).axes,
            ({
                let padded = padded_values::<V>(
                    old(self).values@,
                    final(self).axes.spec_num_bins() as int,
                );
                match final(self).axes.spec_index(coordinate) {
                    Some(i) => final(self).values@ == padded.update(
                        i as int,
                        padded[i as int].spec_fill(),
                    ),
                    None => final(self).values@ == padded,
                }
            }),
    {
        let idx = self.axes.lookup_or_insert(coordinate);
        self.pad_to_num_bins();
        match idx {
            Some(i) => {
                let slot = &mut self.values[i];
                slot.fill();
            },
            None => {},
        }
    }

    /// Fill the bin that the coordinate falls in with a datum.  When the
    /// coordinate is not covered by any bin, nothing changes.
    pub fn fill_with<D>(&mut self, coordinate: &A::Coordinate, data: D) where V: FillWith<D>
        requires
            old(self).wf(),
            forall|i: int|
                0 <= i < old(self).values@.len() ==> old(self).values@[i].spec_can_fill_with(data),
            V::spec_default().spec_can_fill_with(data),
        ensures
            final(self).wf(),
            old(self).axes.spec_num_bins() <= final(self).axes.spec_num_bins(),
            old(self).axes.fixed() ==> final(self).axes == old(self).axes,
            ({
                let padded = padded_values::<V>(
                    old(self).values@,
                    final(self).axes.spec_num_bins() as int,
                );
                match final(self).axes.spec_index(coordinate) {
                    Some(i) => final(self).values@ == padded.update(
                        i as int,
                        padded[i as int].spec_fill_with(data),
                    ),
                    None => final(self).values@ == padded,
                }
            }),
    {
        let idx = self.axes.lookup_or_insert(coordinate);
        self.pad_to_num_bins();
        match idx {
            Some(i) => {
                let slot = &mut self.values[i];
                slot.fill_with(data);
            },
            None => {},
        }
    }

    /// Fill the bin that the coordinate falls in with a datum and an
    /// explicit weight.  When the coordinate is not covered by any bin,
    /// nothing changes.
    pub fn fill_with_weighted<D, W>(&mut self, coordinate: &A::Coordinate, data: D, weight: W) where
        V: FillWithWeighted<D, W>,

        requires
            old(self).wf(),
            forall|i: int|
                0 <= i < old(self).values@.len() ==> old(self).values@[
                    i
                ].spec_can_fill_with_weighted(data, weight),
            V::spec_default().spec_can_fill_with_weighted(data, weight),
        ensures
            final(self).wf(),
            old(self).axes.spec_num_bins() <= final(self).axes.spec_num_bins(),
            old(self).axes.fixed() ==> final(self).axes == old(self).axes,
            ({
                let padded = padded_values::<V>(
                    old(self).values@,
                    final(self).axes.spec_num_bins() as int,
                );
                match final(self).axes.spec_index(coordinate) {
                    Some(i) => final(self).values@ == padded.update(
                        i as int,
                        padded[i as int].spec_fill_with_weighted(data, weight),
                    ),
                    None => final(self).values@ == padded,
                }
            }),
    {
        let idx = self.axes.lookup_or_insert(coordinate);
        self.pad_to_num_bins();
        match idx {
            Some(i) => {
                let slot = &mut self.values[i];
                slot.fill_with_weighted(data, weight);
            },
            None => {},
        }
    }

    /// Combine two histograms element-wise, consuming the left-hand
    /// storage.  Fails with `BinaryOperationError` exactly when the two
    /// histograms do not have the same binning.
    pub fn combine(self, rhs: &Self, op: BinaryOp) -> (r: Result<Self, BinaryOperationError>) where
        V: Combine,

        requires
            self.wf(),
            rhs.wf(),
            self.axes.same_binning(&rhs.axes) ==> forall|i: int|
                0 <= i < self.values@.len() ==> self.values@[i].spec_can_op(
                    op,
                    &rhs.values@[i],
                ),
        ensures
            !self.axes.same_binning(&rhs.axes) ==> r == Err::<Self, BinaryOperationError>(
                BinaryOperationError,
            ),
            self.axes.same_binning(&rhs.axes) ==> (r matches Ok(h) && h.wf() && h.axes == self.axes
                && h.values@.len() == self.values@.len() && forall|i: int|
                0 <= i < h.values@.len() ==> h.values@[i] == self.values@[i].spec_op(
                    op,
                    &rhs.values@[i],
                )),
    {
        if !self.axes.binning_eq(&rhs.axes) {
            return Err(BinaryOperationError);
        }
        proof {
            self.axes.same_binning_same_bins(&rhs.axes);
        }
        let mut out = self;
        let n = out.values.len();
        let ghost lhs_values = out.values@;
        let ghost axes_snapshot = out.axes;
        let mut i: usize = 0;
        while i < n
            invariant
                out.axes == axes_snapshot,
                i <= n,
                n == lhs_values.len(),
                out.values@.len() == n,
                rhs.values@.len() == n,
                forall|k: int| i <= k < n ==> out.values@[k] == lhs_values[k],
                forall|k: int|
                    0 <= k < n ==> lhs_values[k].spec_can_op(op, &rhs.values@[k]),
                forall|k: int|
                    0 <= k < i ==> out.values@[k] == lhs_values[k].spec_op(op, &rhs.values@[k]),
            decreases n - i,
        {
            proof {
                assert(out.values@[i as int] == lhs_values[i as int]);
                assert(lhs_values[i as int].spec_can_op(op, &rhs.values@[i as int]));
            }
            let nv = out.values[i].op_value(op, &rhs.values[i]);
            let slot = &mut out.values[i];
            *slot = nv;
            i = i + 1;
        }
        Ok(out)
    }

    /// Element-wise addition; see [`VecHistogram::combine`].
    pub fn add(self, rhs: &Self) -> (r: Result<Self, BinaryOperationError>) where V: Combine
        requires
            self.wf(),
            rhs.wf(),
            self.axes.same_binning(&rhs.axes) ==> forall|i: int|
                0 <= i < self.values@.len() ==> self.values@[i].spec_can_op(
                    BinaryOp::Add,
                    &rhs.values@[i],
                ),
        ensures
            !self.axes.same_binning(&rhs.axes) ==> r == Err::<Self, BinaryOperationError>(
                BinaryOperationError,
            ),
            self.axes.same_binning(&rhs.axes) ==> (r matches Ok(h) && h.wf() && h.axes == self.axes
                && h.values@.len() == self.values@.len() && forall|i: int|
                0 <= i < h.values@.len() ==> h.values@[i] == self.values@[i].spec_op(
                    BinaryOp::Add,
                    &rhs.values@[i],
                )),
    {
        self.combine(rhs, BinaryOp::Add)
    }

    /// Element-wise subtraction; see [`VecHistogram::combine`].
    pub fn sub(self, rhs: &Self) -> (r: Result<Self, BinaryOperationError>) where V: Combine
        requires
            self.wf(),
            rhs.wf(),
            self.axes.same_binning(&rhs.axes) ==> forall|i: int|
                0 <= i < self.values@.len() ==> self.values@[i].spec_can_op(
                    BinaryOp::Sub,
                    &rhs.values@[i],
                ),
        ensures
            !self.axes.same_binning(&rhs.axes) ==> r == Err::<Self, BinaryOperationError>(
                BinaryOperationError,
            ),
            self.axes.same_binning(&rhs.axes) ==> (r matches Ok(h) && h.wf() && h.axes == self.axes
                && h.values@.len() == self.values@.len() && forall|i: int|
                0 <= i < h.values@.len() ==> h.values@[i] == self.values@[i].spec_op(
                    BinaryOp::Sub,
                    &rhs.values@[i],
                )),
    {
        self.combine(rhs, BinaryOp::Sub)
    }

    /// Element-wise multiplication; see [`VecHistogram::combine`].
    pub fn mul(self, rhs: &Self) -> (r: Result<Self, BinaryOperationError>) where V: Combine
        requires
            self.wf(),
            rhs.wf(),
            self.axes.same_binning(&rhs.axes) ==> forall|i: int|
                0 <= i < self.values@.len() ==> self.values@[i].spec_can_op(
                    BinaryOp::Mul,
                    &rhs.values@[i],
                ),
        ensures
            !self.axes.same_binning(&rhs.axes) ==> r == Err::<Self, BinaryOperationError>(
                BinaryOperationError,
            ),
            self.axes.same_binning(&rhs.axes) ==> (r matches Ok(h) && h.wf() && h.axes == self.axes
                && h.values@.len() == self.values@.len() && forall|i: int|
                0 <= i < h.values@.len() ==> h.values@[i] == self.values@[i].spec_op(
                    BinaryOp::Mul,
                    &rhs.values@[i],
                )),
    {
        self.combine(rhs, BinaryOp::Mul)
    }

    /// Element-wise division; see [`VecHistogram::combine`].
    pub fn div(self, rhs: &Self) -> (r: Result<Self, BinaryOperationError>) where V: Combine
        requires
            self.wf(),
            rhs.wf(),
            self.axes.same_binning(&rhs.axes) ==> forall|i: int|
                0 <= i < self.values@.len() ==> self.values@[i].spec_can_op(
                    BinaryOp::Div,
                    &rhs.values@[i],
                ),
        ensures
            !self.axes.same_binning(&rhs.axes) ==> r == Err::<Self, BinaryOperationError>(
                BinaryOperationError,
            ),
            self.axes.same_binning(&rhs.axes) ==> (r matches Ok(h) && h.wf() && h.axes == self.axes
                && h.values@.len() == self.values@.len() && forall|i: int|
                0 <= i < h.values@.len() ==> h.values@[i] == self.values@[i].spec_op(
                    BinaryOp::Div,
                    &rhs.values@[i],
                )),
    {
        self.combine(rhs, BinaryOp::Div)
    }

    /// Combine another histogram into this one element-wise, in place.
    /// The two histograms must have the same binning: callers check this
    /// beforehand, as the non-consuming combinators do.
    pub fn combine_assign(&mut self, rhs: &Self, op: BinaryOp) where V: Combine
        requires
            old(self).wf(),
            rhs.wf(),
            old(self).axes.same_binning(&rhs.axes),
            forall|i: int|
                0 <= i < old(self).values@.len() ==> old(self).values@[i].spec_can_op(
                    op,
                    &rhs.values@[i],
                ),
        ensures
            final(self).wf(),
            final(self).axes == old(self).axes,
            final(self).values@.len() == old(self).values@.len(),
            forall|i: int|
                0 <= i < final(self).values@.len() ==> final(self).values@[i] == old(
                    self,
                ).values@[i].spec_op(op, &rhs.values@[i]),
    {
        proof {
            self.axes.same_binning_same_bins(&rhs.axes);
        }
        let n = self.values.len();
        let ghost lhs_values = self.values@;
        let ghost axes_snapshot = self.axes;
        let mut i: usize = 0;
        while i < n
            invariant
                self.axes == axes_snapshot,
                self.axes.wf(),
                i <= n,
                n == lhs_values.len(),
                self.values@.len() == n,
                rhs.values@.len() == n,
                forall|k: int| i <= k < n ==> self.values@[k] == lhs_values[k],
                forall|k: int|
                    0 <= k < n ==> lhs_values[k].spec_can_op(op, &rhs.values@[k]),
                forall|k: int|
                    0 <= k < i ==> self.values@[k] == lhs_values[k].spec_op(op, &rhs.values@[k]),
            decreases n - i,
        {
            proof {
                assert(self.values@[i as int] == lhs_values[i as int]);
                assert(lhs_values[i as int].spec_can_op(op, &rhs.values@[i as int]));
            }
            let nv = self.values[i].op_value(op, &rhs.values[i]);
            let slot = &mut self.values[i];
            *slot = nv;
            i = i + 1;
        }
    }
}

/// Histogram self-subtraction yields the default value in every bin:
/// whatever `h` holds, the element-wise difference `h - h` is a
/// histogram whose every bin is the value type's default.
pub proof fn lemma_self_subtraction<A: Axes, V: Combine>(h: VecHistogram<A, V>)
    requires
        h.wf(),
    ensures
        h.axes.same_binning(&h.axes),
        forall|i: int|
            0 <= i < h.values@.len() ==> h.values@[i].spec_can_op(BinaryOp::Sub, &h.values@[i]),
        forall|i: int|
            0 <= i < h.values@.len() ==> h.values@[i].spec_op(BinaryOp::Sub, &h.values@[i])
                == V::spec_default(),
{
    h.axes.same_binning_reflexive();
    assert forall|i: int| 0 <= i < h.values@.len() implies h.values@[i].spec_can_op(
        BinaryOp::Sub,
        &h.values@[i],
    ) && h.values@[i].spec_op(BinaryOp::Sub, &h.values@[i]) == V::spec_default() by {
        h.values@[i].sub_self_is_default();
    }
}

/// The total of a sequence of plain integer bin values.
pub open spec fn sum_of_values(s: Seq<i64>) -> int
    decreases s.len(),
{
    if s.len() == 0 {
        0
    } else {
        sum_of_values(s.drop_last()) + s.last()
    }
}

/// Adding `w` to one element of a sequence adds exactly `w` to its
/// total.
proof fn lemma_sum_update(s: Seq<i64>, i: int, w: i64)
    requires
        0 <= i < s.len(),
        i64::MIN <= s[i] as int + w as int <= i64::MAX,
    ensures
        sum_of_values(s.update(i, (s[i] as int + w as int) as i64)) == sum_of_values(s) + w,
    decreases s.len(),
{
    let t = s.update(i, (s[i] as int + w as int) as i64);
    if i == s.len() - 1 {
        assert(t.drop_last() =~= s.drop_last());
    } else {
        assert(t.drop_last() =~= s.drop_last().update(i, (s[i] as int + w as int) as i64));
        lemma_sum_update(s.drop_last(), i, w);
    }
}

/// Mass conservation: on axes that map the filled coordinate to a bin
/// (as axes with flow bins always do), a weighted fill adds exactly the
/// fill weight to the total of all bin values.
pub proof fn lemma_fill_mass_conservation<A: Axes>(
    pre: VecHistogram<A, i64>,
    post: VecHistogram<A, i64>,
    coordinate: &A::Coordinate,
    weight: i64,
)
    requires
        pre.wf(),
        pre.axes.spec_index(coordinate) is Some,
        pre.axes.spec_index(coordinate)->0 < pre.values@.len(),
        post.axes == pre.axes,
        i64::MIN <= pre.values@[pre.axes.spec_index(coordinate)->0 as int] as int + weight as int
            <= i64::MAX,
        post.values@ == pre.values@.update(
            pre.axes.spec_index(coordinate)->0 as int,
            pre.values@[pre.axes.spec_index(coordinate)->0 as int].spec_fill_with(weight),
        ),
    ensures
        sum_of_values(post.values@) == sum_of_values(pre.values@) + weight,
{
    let i = pre.axes.spec_index(coordinate)->0 as int;
    lemma_sum_update(pre.values@, i, weight);
}

} // verus!
