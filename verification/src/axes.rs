//! Composition of several axes into one N-dimensional axis.
//!
//! A tuple of axes is itself an axis over tuple coordinates.  The
//! combined bin index is the mixed-radix, row-major encoding of the
//! per-axis indices, with the first axis varying fastest.

use vstd::prelude::*;

use vstd::arithmetic::div_mod::lemma_fundamental_div_mod_converse;

use crate::axis::Axis;

verus! {

/// A set of axes acting as the binning of an N-dimensional histogram.
pub trait Axes: Axis {

}

/// An ordered, fixed-arity collection of axes that is itself an axis
/// over tuple coordinates.
#[derive(Clone, Debug)]
pub struct AxesTuple<T> {
    /// The member axes.
    pub axes: T,
}

impl<T> AxesTuple<T> {
    /// The member axes as a tuple.
    pub fn as_tuple(&self) -> (r: &T)
        ensures
            r == &self.axes,
    {
        &self.axes
    }
}

/// The row-major linear index of per-axis indices `(i, j)` where the
/// first axis has `nx` bins.
pub open spec fn linear_index_2(i: int, j: int, nx: int) -> int {
    i + nx * j
}

/// The row-major linear index of per-axis indices `(i, j, k)` where the
/// first two axes have `nx` and `ny` bins.
pub open spec fn linear_index_3(i: int, j: int, k: int, nx: int, ny: int) -> int {
    i + nx * (j + ny * k)
}

/// Mixed-radix round trip over two axes: encoding per-axis indices as a
/// linear index stays below the product of the bin counts, and decoding
/// with the same radix recovers the pair exactly.
pub proof fn lemma_mixed_radix_2(i: int, j: int, nx: int, ny: int)
    requires
        0 <= i < nx,
        0 <= j < ny,
    ensures
        0 <= linear_index_2(i, j, nx) < nx * ny,
        linear_index_2(i, j, nx) % nx == i,
        linear_index_2(i, j, nx) / nx == j,
{
    assert(0 <= i + nx * j && i + nx * j < nx * ny && i + nx * j == j * nx + i)
        by (nonlinear_arith)
        requires
            0 <= i < nx,
            0 <= j < ny,
    ;
    lemma_fundamental_div_mod_converse(i + nx * j, nx, j, i);
}

/// Mixed-radix round trip over three axes: encoding per-axis indices as
/// a linear index stays below the product of the bin counts, and
/// decoding with the same radices recovers the triple exactly.
pub proof fn lemma_mixed_radix_3(i: int, j: int, k: int, nx: int, ny: int, nz: int)
    requires
        0 <= i < nx,
        0 <= j < ny,
        0 <= k < nz,
    ensures
        0 <= linear_index_3(i, j, k, nx, ny) < nx * ny * nz,
        linear_index_3(i, j, k, nx, ny) % nx == i,
        (linear_index_3(i, j, k, nx, ny) / nx) % ny == j,
        (linear_index_3(i, j, k, nx, ny) / nx) / ny == k,
{
    let m = j + ny * k;
    lemma_mixed_radix_2(j, k, ny, nz);
    lemma_mixed_radix_2(i, m, nx, ny * nz);
    assert(nx * (ny * nz) == nx * ny * nz) by (nonlinear_arith);
}

/// The product of bin counts is positive exactly when each count is.
proof fn lemma_product_positive(a: int, b: int)
    requires
        0 <= a,
        0 <= b,
    ensures
        0 < a * b ==> (0 < a && 0 < b),
        (0 < a && 0 < b) ==> 0 < a * b,
{
    assert((0 < a * b ==> (0 < a && 0 < b)) && ((0 < a && 0 < b) ==> 0 < a * b))
        by (nonlinear_arith)
        requires
            0 <= a,
            0 <= b,
    ;
}

impl<X: Axis> From<(X,)> for AxesTuple<(X,)> {
    /// Wrap a single axis as an axes tuple.
    fn from(axes: (X,)) -> (r: Self) {
        AxesTuple { axes }
    }
}

impl<X: Axis> vstd::std_specs::convert::FromSpecImpl<(X,)> for AxesTuple<(X,)> {
    open spec fn obeys_from_spec() -> bool {
        true
    }

    open spec fn from_spec(axes: (X,)) -> Self {
        AxesTuple { axes }
    }
}

impl<X: Axis, Y: Axis> From<(X, Y)> for AxesTuple<(X, Y)> {
    /// Wrap a pair of axes as an axes tuple.
    fn from(axes: (X, Y)) -> (r: Self) {
        AxesTuple { axes }
    }
}

impl<X: Axis, Y: Axis> vstd::std_specs::convert::FromSpecImpl<(X, Y)> for AxesTuple<(X, Y)> {
    open spec fn obeys_from_spec() -> bool {
        true
    }

    open spec fn from_spec(axes: (X, Y)) -> Self {
        AxesTuple { axes }
    }
}

impl<X: Axis, Y: Axis, Z: Axis> From<(X, Y, Z)> for AxesTuple<(X, Y, Z)> {
    /// Wrap a triple of axes as an axes tuple.
    fn from(axes: (X, Y, Z)) -> (r: Self) {
        AxesTuple { axes }
    }
}

impl<X: Axis, Y: Axis, Z: Axis> vstd::std_specs::convert::FromSpecImpl<(X, Y, Z)> for AxesTuple<(X, Y, Z)> {
    open spec fn obeys_from_spec() -> bool {
        true
    }

    open spec fn from_spec(axes: (X, Y, Z)) -> Self {
        AxesTuple { axes }
    }
}

impl<X: Axis> Axis for AxesTuple<(X,)> {
    type Coordinate = X::Coordinate;

    type BinInterval = X::BinInterval;

    open spec fn wf(&self) -> bool {
        self.axes.0.wf()
    }

    open spec fn fixed(&self) -> bool {
        self.axes.0.fixed()
    }

    open spec fn same_binning(&self, other: &Self) -> bool {
        self.axes.0.same_binning(&other.axes.0)
    }

    fn binning_eq(&self, other: &Self) -> (r: bool) {
        self.axes.0.binning_eq(&other.axes.0)
    }

    proof fn same_binning_reflexive(&self) {
        self.axes.0.same_binning_reflexive();
    }

    proof fn same_binning_same_bins(&self, other: &Self) {
        self.axes.0.same_binning_same_bins(&other.axes.0);
    }

    open spec fn spec_num_bins(&self) -> usize {
        self.axes.0.spec_num_bins()
    }

    open spec fn spec_index(&self, coordinate: &X::Coordinate) -> Option<usize> {
        self.axes.0.spec_index(coordinate)
    }

    open spec fn spec_bin(&self, index: int) -> Option<X::BinInterval> {
        self.axes.0.spec_bin(index)
    }

    fn index(&self, coordinate: &X::Coordinate) -> (r: Option<usize>) {
        self.axes.0.index(coordinate)
    }

    fn num_bins(&self) -> (r: usize) {
        self.axes.0.num_bins()
    }

    fn bin(&self, index: usize) -> (r: Option<X::BinInterval>) {
        self.axes.0.bin(index)
    }

    fn lookup_or_insert(&mut self, coordinate: &X::Coordinate) -> (r: Option<usize>) {
        self.axes.0.lookup_or_insert(coordinate)
    }
}

impl<X: Axis> Axes for AxesTuple<(X,)> {

}

impl<X: Axis, Y: Axis> Axis for AxesTuple<(X, Y)> {
    type Coordinate = (X::Coordinate, Y::Coordinate);

    type BinInterval = (X::BinInterval, Y::BinInterval);

    open spec fn wf(&self) -> bool {
        &&& self.axes.0.wf()
        &&& self.axes.1.wf()
        &&& self.axes.0.spec_num_bins() as int * self.axes.1.spec_num_bins() as int
            <= usize::MAX as int
    }

    open spec fn fixed(&self) -> bool {
        self.axes.0.fixed() && self.axes.1.fixed()
    }

    open spec fn same_binning(&self, other: &Self) -> bool {
        self.axes.0.same_binning(&other.axes.0) && self.axes.1.same_binning(&other.axes.1)
    }

    fn binning_eq(&self, other: &Self) -> (r: bool) {
        self.axes.0.binning_eq(&other.axes.0) && self.axes.1.binning_eq(&other.axes.1)
    }

    proof fn same_binning_reflexive(&self) {
        self.axes.0.same_binning_reflexive();
        self.axes.1.same_binning_reflexive();
    }

    proof fn same_binning_same_bins(&self, other: &Self) {
        self.axes.0.same_binning_same_bins(&other.axes.0);
        self.axes.1.same_binning_same_bins(&other.axes.1);
    }

    open spec fn spec_num_bins(&self) -> usize {
        (self.axes.0.spec_num_bins() as int * self.axes.1.spec_num_bins() as int) as usize
    }

    open spec fn spec_index(&self, coordinate: &(X::Coordinate, Y::Coordinate)) -> Option<usize> {
        match (self.axes.0.spec_index(&coordinate.0), self.axes.1.spec_index(&coordinate.1)) {
            (Some(i), Some(j)) => Some(
                linear_index_2(i as int, j as int, self.axes.0.spec_num_bins() as int) as usize,
            ),
            _ => None,
        }
    }

    open spec fn spec_bin(&self, index: int) -> Option<(X::BinInterval, Y::BinInterval)> {
        let nx = self.axes.0.spec_num_bins() as int;
        if 0 <= index < self.spec_num_bins() as int {
            match (self.axes.0.spec_bin(index % nx), self.axes.1.spec_bin(index / nx)) {
                (Some(a), Some(b)) => Some((a, b)),
                _ => None,
            }
        } else {
            None
        }
    }

    fn index(&self, coordinate: &(X::Coordinate, Y::Coordinate)) -> (r: Option<usize>) {
        let i = match self.axes.0.index(&coordinate.0) {
            Some(i) => i,
            None => {
                return None;
            },
        };
        let j = match self.axes.1.index(&coordinate.1) {
            Some(j) => j,
            None => {
                return None;
            },
        };
        let nx = self.axes.0.num_bins();
        proof {
            lemma_mixed_radix_2(
                i as int,
                j as int,
                nx as int,
                self.axes.1.spec_num_bins() as int,
            );
        }
        Some(i + nx * j)
    }

    fn num_bins(&self) -> (r: usize) {
        self.axes.0.num_bins() * self.axes.1.num_bins()
    }

    fn bin(&self, index: usize) -> (r: Option<(X::BinInterval, Y::BinInterval)>) {
        let nx = self.axes.0.num_bins();
        let ny = self.axes.1.num_bins();
        let total = nx * ny;
        if index >= total {
            return None;
        }
        proof {
            lemma_product_positive(nx as int, ny as int);
            vstd::arithmetic::div_mod::lemma_mod_bound(index as int, nx as int);
            vstd::arithmetic::div_mod::lemma_div_pos_is_pos(index as int, nx as int);
            assert((index as int) / (nx as int) < ny as int) by (nonlinear_arith)
                requires
                    0 < nx as int,
                    0 <= index as int,
                    (index as int) < nx as int * ny as int,
            ;
        }
        let a = match self.axes.0.bin(index % nx) {
            Some(a) => a,
            None => {
                proof {
                    assert(false);
                }
                return None;
            },
        };
        let b = match self.axes.1.bin(index / nx) {
            Some(b) => b,
            None => {
                proof {
                    assert(false);
                }
                return None;
            },
        };
        Some((a, b))
    }

    fn num_dim(&self) -> (r: usize) {
        2
    }
}

impl<X: Axis, Y: Axis> Axes for AxesTuple<(X, Y)> {

}

impl<X: Axis, Y: Axis, Z: Axis> Axis for AxesTuple<(X, Y, Z)> {
    type Coordinate = (X::Coordinate, Y::Coordinate, Z::Coordinate);

    type BinInterval = (X::BinInterval, Y::BinInterval, Z::BinInterval);

    open spec fn wf(&self) -> bool {
        &&& self.axes.0.wf()
        &&& self.axes.1.wf()
        &&& self.axes.2.wf()
        &&& self.axes.0.spec_num_bins() as int * self.axes.1.spec_num_bins() as int
            <= usize::MAX as int
        &&& self.axes.0.spec_num_bins() as int * self.axes.1.spec_num_bins() as int
            * self.axes.2.spec_num_bins() as int <= usize::MAX as int
    }

    open spec fn fixed(&self) -> bool {
        self.axes.0.fixed() && self.axes.1.fixed() && self.axes.2.fixed()
    }

    open spec fn same_binning(&self, other: &Self) -> bool {
        &&& self.axes.0.same_binning(&other.axes.0)
        &&& self.axes.1.same_binning(&other.axes.1)
        &&& self.axes.2.same_binning(&other.axes.2)
    }

    fn binning_eq(&self, other: &Self) -> (r: bool) {
        self.axes.0.binning_eq(&other.axes.0) && self.axes.1.binning_eq(&other.axes.1)
            && self.axes.2.binning_eq(&other.axes.2)
    }

    proof fn same_binning_reflexive(&self) {
        self.axes.0.same_binning_reflexive();
        self.axes.1.same_binning_reflexive();
        self.axes.2.same_binning_reflexive();
    }

    proof fn same_binning_same_bins(&self, other: &Self) {
        self.axes.0.same_binning_same_bins(&other.axes.0);
        self.axes.1.same_binning_same_bins(&other.axes.1);
        self.axes.2.same_binning_same_bins(&other.axes.2);
    }

    open spec fn spec_num_bins(&self) -> usize {
        (self.axes.0.spec_num_bins() as int * self.axes.1.spec_num_bins() as int
            * self.axes.2.spec_num_bins() as int) as usize
    }

    open spec fn spec_index(
        &self,
        coordinate: &(X::Coordinate, Y::Coordinate, Z::Coordinate),
    ) -> Option<usize> {
        match (
            self.axes.0.spec_index(&coordinate.0),
            self.axes.1.spec_index(&coordinate.1),
            self.axes.2.spec_index(&coordinate.2),
        ) {
            (Some(i), Some(j), Some(k)) => Some(
                linear_index_3(
                    i as int,
                    j as int,
                    k as int,
                    self.axes.0.spec_num_bins() as int,
                    self.axes.1.spec_num_bins() as int,
                ) as usize,
            ),
            _ => None,
        }
    }

    open spec fn spec_bin(
        &self,
        index: int,
    ) -> Option<(X::BinInterval, Y::BinInterval, Z::BinInterval)> {
        let nx = self.axes.0.spec_num_bins() as int;
        let ny = self.axes.1.spec_num_bins() as int;
        if 0 <= index < self.spec_num_bins() as int {
            match (
                self.axes.0.spec_bin(index % nx),
                self.axes.1.spec_bin((index / nx) % ny),
                self.axes.2.spec_bin((index / nx) / ny),
            ) {
                (Some(a), Some(b), Some(c)) => Some((a, b, c)),
                _ => None,
            }
        } else {
            None
        }
    }

    fn index(
        &self,
        coordinate: &(X::Coordinate, Y::Coordinate, Z::Coordinate),
    ) -> (r: Option<usize>) {
        let i = match self.axes.0.index(&coordinate.0) {
            Some(i) => i,
            None => {
                return None;
            },
        };
        let j = match self.axes.1.index(&coordinate.1) {
            Some(j) => j,
            None => {
                return None;
            },
        };
        let k = match self.axes.2.index(&coordinate.2) {
            Some(k) => k,
            None => {
                return None;
            },
        };
        let nx = self.axes.0.num_bins();
        let ny = self.axes.1.num_bins();
        proof {
            let nz = self.axes.2.spec_num_bins() as int;
            lemma_mixed_radix_3(i as int, j as int, k as int, nx as int, ny as int, nz);
            lemma_mixed_radix_2(j as int, k as int, ny as int, nz);
            assert(nx as int * (ny as int * nz) == nx as int * ny as int * nz && ny as int * nz
                <= nx as int * ny as int * nz) by (nonlinear_arith)
                requires
                    1 <= nx as int,
                    0 <= ny as int,
                    0 <= nz,
            ;
        }
        Some(i + nx * (j + ny * k))
    }

    fn num_bins(&self) -> (r: usize) {
        self.axes.0.num_bins() * self.axes.1.num_bins() * self.axes.2.num_bins()
    }

    fn bin(
        &self,
        index: usize,
    ) -> (r: Option<(X::BinInterval, Y::BinInterval, Z::BinInterval)>) {
        let nx = self.axes.0.num_bins();
        let ny = self.axes.1.num_bins();
        let nz = self.axes.2.num_bins();
        let total = nx * ny * nz;
        if index >= total {
            return None;
        }
        proof {
            lemma_product_positive(nx as int * ny as int, nz as int);
            lemma_product_positive(nx as int, ny as int);
            vstd::arithmetic::div_mod::lemma_mod_bound(index as int, nx as int);
            vstd::arithmetic::div_mod::lemma_div_pos_is_pos(index as int, nx as int);
            vstd::arithmetic::div_mod::lemma_mod_bound(index as int / nx as int, ny as int);
            vstd::arithmetic::div_mod::lemma_div_pos_is_pos(index as int / nx as int, ny as int);
            assert((index as int) / (nx as int) < ny as int * nz as int && ((index as int) / (
            nx as int)) / (ny as int) < nz as int) by (nonlinear_arith)
                requires
                    0 < nx as int,
                    0 < ny as int,
                    0 <= index as int,
                    (index as int) < nx as int * ny as int * nz as int,
            ;
        }
        let q = index / nx;
        let a = match self.axes.0.bin(index % nx) {
            Some(a) => a,
            None => {
                proof {
                    assert(false);
                }
                return None;
            },
        };
        let b = match self.axes.1.bin(q % ny) {
            Some(b) => b,
            None => {
                proof {
                    assert(false);
                }
                return None;
            },
        };
        let c = match self.axes.2.bin(q / ny) {
            Some(c) => c,
            None => {
                proof {
                    assert(false);
                }
                return None;
            },
        };
        Some((a, b, c))
    }

    fn num_dim(&self) -> (r: usize) {
        3
    }
}

impl<X: Axis, Y: Axis, Z: Axis> Axes for AxesTuple<(X, Y, Z)> {

}

} // verus!
