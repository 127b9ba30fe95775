//! Multi-dimensional histograms with verified binning and accumulation.
//!
//! A histogram is composed of a set of axes, which map coordinates to
//! linear bin indices, and a value store keyed by those indices.
//! Axes over continuous ranges work on integer coordinates; callers that
//! bin fractional data choose a unit and scale their coordinates to it.

use vstd::prelude::*;

pub mod axes;
pub mod axis;
pub mod error;
pub mod histogram;
pub mod value;

pub use axes::Axes;
pub use axes::AxesTuple;
pub use histogram::Fill;
pub use histogram::FillWith;
pub use histogram::FillWithWeighted;
pub use histogram::HashHistogram;
pub use histogram::Histogram;
pub use histogram::Item;
pub use histogram::VecHistogram;

verus! {

/// A dense one-dimensional histogram.
pub type Hist1D<X, V> = VecHistogram<AxesTuple<(X,)>, V>;

/// A dense two-dimensional histogram.
pub type Hist2D<X, Y, V> = VecHistogram<AxesTuple<(X, Y)>, V>;

/// A dense three-dimensional histogram.
pub type Hist3D<X, Y, Z, V> = VecHistogram<AxesTuple<(X, Y, Z)>, V>;

/// A sparse one-dimensional histogram.
pub type SparseHist1D<X, V> = HashHistogram<AxesTuple<(X,)>, V>;

/// A sparse two-dimensional histogram.
pub type SparseHist2D<X, Y, V> = HashHistogram<AxesTuple<(X, Y)>, V>;

/// A sparse three-dimensional histogram.
pub type SparseHist3D<X, Y, Z, V> = HashHistogram<AxesTuple<(X, Y, Z)>, V>;

} // verus!
