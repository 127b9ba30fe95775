//! Intervals of coordinates covered by a single histogram bin.

use vstd::prelude::*;

use core::ops::Range;
use core::ops::RangeFrom;
use core::ops::RangeTo;

verus! {

/// Declares `RangeTo` for the verifier; it has a single public field.
#[verifier::external_type_specification]
#[verifier::reject_recursive_types(Idx)]
pub struct ExRangeTo<Idx>(RangeTo<Idx>);

/// Declares `RangeFrom` for the verifier; it has a single public field.
#[verifier::external_type_specification]
#[verifier::reject_recursive_types(Idx)]
pub struct ExRangeFrom<Idx>(RangeFrom<Idx>);

/// The interval of coordinates that one bin of a continuous axis covers.
#[derive(Copy, Clone, PartialEq, Eq, Structural, Debug, Hash)]
pub enum BinInterval<T> {
    /// The underflow bin covers every coordinate below `end`.
    Underflow {
        /// End of the interval (excluded).
        end: T,
    },
    /// The overflow bin covers every coordinate from `start` upwards.
    Overflow {
        /// Start of the interval (included).
        start: T,
    },
    /// A finite bin covering the half-open interval `[start, end)`.
    Bin {
        /// Start of the interval (included).
        start: T,
        /// End of the interval (excluded).
        end: T,
    },
}

impl<T> BinInterval<T> {
    /// Create an underflow interval ending at `end`.
    pub fn underflow(end: T) -> (r: Self)
        ensures
            r == (BinInterval::Underflow { end }),
    {
        Self::Underflow { end }
    }

    /// Create an overflow interval starting at `start`.
    pub fn overflow(start: T) -> (r: Self)
        ensures
            r == (BinInterval::Overflow { start }),
    {
        Self::Overflow { start }
    }

    /// Create a finite interval `[start, end)`.
    pub fn new(start: T, end: T) -> (r: Self)
        ensures
            r == (BinInterval::Bin { start, end }),
    {
        Self::Bin { start, end }
    }
}

impl<T: Copy> BinInterval<T> {
    /// The start of the interval; the underflow bin has none.
    pub fn start(&self) -> (r: Option<T>)
        ensures
            r == match *self {
                BinInterval::Underflow { .. } => None::<T>,
                BinInterval::Overflow { start } => Some(start),
                BinInterval::Bin { start, .. } => Some(start),
            },
    {
        match self {
            Self::Underflow { end: _ } => None,
            Self::Overflow { start } => Some(*start),
            Self::Bin { start, end: _ } => Some(*start),
        }
    }

    /// The end of the interval; the overflow bin has none.
    pub fn end(&self) -> (r: Option<T>)
        ensures
            r == match *self {
                BinInterval::Underflow { end } => Some(end),
                BinInterval::Overflow { .. } => None::<T>,
                BinInterval::Bin { end, .. } => Some(end),
            },
    {
        match self {
            Self::Underflow { end } => Some(*end),
            Self::Overflow { start: _ } => None,
            Self::Bin { start: _, end } => Some(*end),
        }
    }
}

impl<T> From<Range<T>> for BinInterval<T> {
    /// A half-open range becomes a finite bin.
    fn from(other: Range<T>) -> (r: Self) {
        BinInterval::Bin { start: other.start, end: other.end }
    }
}

impl<T> vstd::std_specs::convert::FromSpecImpl<Range<T>> for BinInterval<T> {
    open spec fn obeys_from_spec() -> bool {
        true
    }

    open spec fn from_spec(other: Range<T>) -> Self {
        BinInterval::Bin { start: other.start, end: other.end }
    }
}

impl<T> From<RangeTo<T>> for BinInterval<T> {
    /// An upper-bounded range becomes an underflow bin.
    fn from(other: RangeTo<T>) -> (r: Self) {
        BinInterval::Underflow { end: other.end }
    }
}

impl<T> vstd::std_specs::convert::FromSpecImpl<RangeTo<T>> for BinInterval<T> {
    open spec fn obeys_from_spec() -> bool {
        true
    }

    open spec fn from_spec(other: RangeTo<T>) -> Self {
        BinInterval::Underflow { end: other.end }
    }
}

impl<T> From<RangeFrom<T>> for BinInterval<T> {
    /// A lower-bounded range becomes an overflow bin.
    fn from(other: RangeFrom<T>) -> (r: Self) {
        BinInterval::Overflow { start: other.start }
    }
}

impl<T> vstd::std_specs::convert::FromSpecImpl<RangeFrom<T>> for BinInterval<T> {
    open spec fn obeys_from_spec() -> bool {
        true
    }

    open spec fn from_spec(other: RangeFrom<T>) -> Self {
        BinInterval::Overflow { start: other.start }
    }
}

impl<T> TryFrom<BinInterval<T>> for Range<T> {
    type Error = ();

    /// A finite bin becomes a half-open range; flow bins do not.
    fn try_from(value: BinInterval<T>) -> (r: Result<Self, ()>) {
        match value {
            BinInterval::Bin { start, end } => Ok(start..end),
            _ => Err(()),
        }
    }
}

impl<T> vstd::std_specs::convert::TryFromSpecImpl<BinInterval<T>> for Range<T> {
    open spec fn obeys_try_from_spec() -> bool {
        true
    }

    open spec fn try_from_spec(value: BinInterval<T>) -> Result<Self, ()> {
        match value {
            BinInterval::Bin { start, end } => Ok(start..end),
            _ => Err(()),
        }
    }
}

impl<T> TryFrom<BinInterval<T>> for RangeTo<T> {
    type Error = ();

    /// An underflow bin becomes an upper-bounded range; other bins do
    /// not.
    fn try_from(value: BinInterval<T>) -> (r: Result<Self, ()>) {
        match value {
            BinInterval::Underflow { end } => Ok(..end),
            _ => Err(()),
        }
    }
}

impl<T> vstd::std_specs::convert::TryFromSpecImpl<BinInterval<T>> for RangeTo<T> {
    open spec fn obeys_try_from_spec() -> bool {
        true
    }

    open spec fn try_from_spec(value: BinInterval<T>) -> Result<Self, ()> {
        match value {
            BinInterval::Underflow { end } => Ok(..end),
            _ => Err(()),
        }
    }
}

impl<T> TryFrom<BinInterval<T>> for RangeFrom<T> {
    type Error = ();

    /// An overflow bin becomes a lower-bounded range; other bins do not.
    fn try_from(value: BinInterval<T>) -> (r: Result<Self, ()>) {
        match value {
            BinInterval::Overflow { start } => Ok(start..),
            _ => Err(()),
        }
    }
}

impl<T> vstd::std_specs::convert::TryFromSpecImpl<BinInterval<T>> for RangeFrom<T> {
    open spec fn obeys_try_from_spec() -> bool {
        true
    }

    open spec fn try_from_spec(value: BinInterval<T>) -> Result<Self, ()> {
        match value {
            BinInterval::Overflow { start } => Ok(start..),
            _ => Err(()),
        }
    }
}

impl<T: crate::axis::category::AsText> SingleValueBinInterval<T> {
    /// This interval as text: the value between braces, or `{overflow}`.
    pub fn to_string(&self) -> String {
        match self {
            Self::Overflow => {
                let mut out = String::new();
                out.append("{overflow}");
                out
            },
            Self::Bin { value } => {
                let mut out = String::new();
                out.append("{");
                let t = value.as_text();
                out.append(t.as_str());
                out.append("}");
                out
            },
        }
    }
}

/// The value, or set of values, that one bin of a discrete axis covers.
#[derive(Copy, Clone, PartialEq, Eq, Structural, Debug, Hash)]
pub enum SingleValueBinInterval<T> {
    /// A bin standing for every value not explicitly enumerated.
    Overflow,
    /// A bin covering exactly one value.
    Bin {
        /// The value this bin covers.
        value: T,
    },
}

impl<T> SingleValueBinInterval<T> {
    /// Create an interval covering exactly `value`.
    pub fn new(value: T) -> (r: Self)
        ensures
            r == (SingleValueBinInterval::Bin { value }),
    {
        Self::Bin { value }
    }

    /// Create the interval standing for all other values.
    pub fn overflow() -> (r: Self)
        ensures
            r == SingleValueBinInterval::<T>::Overflow,
    {
        Self::Overflow
    }

    /// The value the bin covers; the overflow bin has none.
    pub fn value(&self) -> (r: Option<&T>)
        ensures
            r == match *self {
                SingleValueBinInterval::Overflow => None::<&T>,
                SingleValueBinInterval::Bin { .. } => Some(&self->value),
            },
    {
        match self {
            Self::Overflow => None,
            Self::Bin { value } => Some(value),
        }
    }
}

} // verus!
