//! Relations between the two storage engines.

use vstd::prelude::*;

use crate::axes::Axes;
use crate::axis::Axis;
use crate::histogram::fill::FillWith;
use crate::histogram::hashhistogram::spec_get;
use crate::histogram::hashhistogram::spec_logical;
use crate::histogram::hashhistogram::HashHistogram;
use crate::histogram::vechistogram::VecHistogram;
use crate::histogram::Histogram;
use crate::histogram::Value;

verus! {

/// Whether a dense and a sparse histogram hold the same logical content:
/// bin by bin, the dense value equals the sparse stored value, or the
/// default where the sparse store holds nothing.
pub open spec fn dense_sparse_equivalent<A: Axes, V: Value>(
    dense: VecHistogram<A, V>,
    sparse: HashHistogram<A, V>,
) -> bool {
    forall|j: int|
        0 <= j < dense.values@.len() ==> dense.values@[j] == spec_logical::<V>(sparse.entries@, j)
}

/// Dense and sparse histograms stay equivalent under filling: starting
/// from the same axes and the same logical content, one weighted fill of
/// the same coordinate and datum — each engine changing its store as its
/// fill operation promises — leaves the same logical content in every
/// bin, touched or untouched.  Applied fill by fill, an identical fill
/// sequence into both engines yields identical logical values
/// everywhere.
pub proof fn lemma_dense_sparse_fill_equivalence<A: Axes, V: Value + FillWith<D>, D>(
    dense_pre: VecHistogram<A, V>,
    dense_post: VecHistogram<A, V>,
    sparse_pre: HashHistogram<A, V>,
    sparse_post: HashHistogram<A, V>,
    coordinate: &A::Coordinate,
    data: D,
)
    requires
        dense_pre.wf(),
        sparse_pre.wf(),
        dense_pre.axes == sparse_pre.axes,
        dense_sparse_equivalent(dense_pre, sparse_pre),
        dense_post.axes == dense_pre.axes,
        sparse_post.axes == sparse_pre.axes,
        match dense_pre.axes.spec_index(coordinate) {
            Some(i) => i < dense_pre.values@.len() && dense_post.values@
                == dense_pre.values@.update(
                i as int,
                dense_pre.values@[i as int].spec_fill_with(data),
            ),
            None => dense_post.values@ == dense_pre.values@,
        },
        match sparse_pre.axes.spec_index(coordinate) {
            Some(i) => spec_get(sparse_post.entries@, i as int) == Some(
                spec_logical::<V>(sparse_pre.entries@, i as int).spec_fill_with(data),
            ) && forall|j: int|
                j != i as int ==> spec_get(sparse_post.entries@, j) == spec_get(
                    sparse_pre.entries@,
                    j,
                ),
            None => sparse_post.entries@ == sparse_pre.entries@,
        },
    ensures
        dense_sparse_equivalent(dense_post, sparse_post),
{
    match dense_pre.axes.spec_index(coordinate) {
        Some(i) => {
            assert forall|j: int|
                0 <= j < dense_post.values@.len() implies dense_post.values@[j]
                == spec_logical::<V>(sparse_post.entries@, j) by {
                if j == i as int {
                    assert(spec_logical::<V>(sparse_post.entries@, j) == spec_logical::<V>(
                        sparse_pre.entries@,
                        j,
                    ).spec_fill_with(data));
                } else {
                    assert(spec_get(sparse_post.entries@, j) == spec_get(sparse_pre.entries@, j));
                }
            }
        },
        None => {},
    }
}

/// Histogram self-subtraction also holds in the sparse engine: whatever
/// bins `h` has touched, the element-wise difference `h - h` stores the
/// value type's default in each of them.
pub proof fn lemma_sparse_self_subtraction<A: Axes, V: crate::histogram::Combine>(
    h: HashHistogram<A, V>,
)
    requires
        h.wf(),
    ensures
        h.axes.same_binning(&h.axes),
        forall|j: int|
            0 <= j < h.axes.spec_num_bins() ==> spec_logical::<V>(h.entries@, j).spec_can_op(
                crate::histogram::BinaryOp::Sub,
                &spec_logical::<V>(h.entries@, j),
            ),
        forall|j: int|
            0 <= j < h.axes.spec_num_bins() ==> spec_logical::<V>(h.entries@, j).spec_op(
                crate::histogram::BinaryOp::Sub,
                &spec_logical::<V>(h.entries@, j),
            ) == V::spec_default(),
{
    h.axes.same_binning_reflexive();
    assert forall|j: int|
        0 <= j < h.axes.spec_num_bins() implies spec_logical::<V>(h.entries@, j).spec_can_op(
        crate::histogram::BinaryOp::Sub,
        &spec_logical::<V>(h.entries@, j),
    ) && spec_logical::<V>(h.entries@, j).spec_op(
        crate::histogram::BinaryOp::Sub,
        &spec_logical::<V>(h.entries@, j),
    ) == V::spec_default() by {
        spec_logical::<V>(h.entries@, j).sub_self_is_default();
    }
}

} // verus!
