//! Errors returned by axis constructors and histogram combinators.

use vstd::prelude::*;

verus! {

/// Returned when a binary operation between two histograms fails because
/// their axes do not match.
#[derive(Copy, Clone, PartialEq, Eq, Structural, Debug, Hash)]
pub struct BinaryOperationError;

/// Returned when an axis cannot be built from the given parameters.
#[derive(Copy, Clone, PartialEq, Eq, Structural, Debug, Hash)]
pub enum AxisError {
    /// The number of bins is zero or otherwise unusable for this axis type.
    InvalidNumberOfBins,
    /// The coordinate range is unusable, for example a low edge equal to
    /// the high edge.
    InvalidAxisRange,
    /// The step size is zero or negative.
    InvalidStepSize,
    /// Fewer than two bin edges were supplied.
    InvalidNumberOfBinEdges,
    /// The supplied bin edges cannot be put in ascending order.
    FailedToSortBinEdges,
}

/// Any error of this crate, for callers that do not care which operation
/// failed.
#[derive(Copy, Clone, PartialEq, Eq, Structural, Debug, Hash)]
pub enum Error {
    /// A binary operation between two histograms failed.
    BinaryOperationError(BinaryOperationError),
    /// An axis could not be built.
    AxisError(AxisError),
}

impl From<AxisError> for Error {
    /// Wrap an axis construction error.
    fn from(e: AxisError) -> (r: Self) {
        Error::AxisError(e)
    }
}

impl vstd::std_specs::convert::FromSpecImpl<AxisError> for Error {
    open spec fn obeys_from_spec() -> bool {
        true
    }

    open spec fn from_spec(e: AxisError) -> Self {
        Error::AxisError(e)
    }
}

impl From<BinaryOperationError> for Error {
    /// Wrap a histogram combination error.
    fn from(e: BinaryOperationError) -> (r: Self) {
        Error::BinaryOperationError(e)
    }
}

impl vstd::std_specs::convert::FromSpecImpl<BinaryOperationError> for Error {
    open spec fn obeys_from_spec() -> bool {
        true
    }

    open spec fn from_spec(e: BinaryOperationError) -> Self {
        Error::BinaryOperationError(e)
    }
}

impl BinaryOperationError {
    /// A short description of the error.
    pub fn message(&self) -> &'static str {
        "histogram binary operation failed (check binning?)"
    }
}

impl AxisError {
    /// A short description of the error.
    pub fn message(&self) -> &'static str {
        match self {
            AxisError::InvalidNumberOfBins => "number of bins should be positive and non-zero",
            AxisError::InvalidAxisRange => {
                "invalid axis range: low edge should not equal high edge"
            },
            AxisError::InvalidStepSize => "axis step size should be non-zero and positive",
            AxisError::InvalidNumberOfBinEdges => "the number of bin edges must be at least 2",
            AxisError::FailedToSortBinEdges => "the list of axis bin edges must be sortable",
        }
    }
}

impl Error {
    /// A short description of the error.
    pub fn message(&self) -> &'static str {
        match self {
            Error::BinaryOperationError(e) => e.message(),
            Error::AxisError(e) => e.message(),
        }
    }
}

} // verus!
