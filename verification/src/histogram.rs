//! Histogram storage engines and the value protocol.

use vstd::prelude::*;

use crate::axes::Axes;
use crate::axis::Axis;

pub mod fill;
pub mod hashhistogram;
pub mod laws;
pub mod vechistogram;

pub use fill::Fill;
pub use fill::FillWith;
pub use fill::FillWithWeighted;
pub use hashhistogram::HashHistogram;
pub use vechistogram::VecHistogram;

verus! {

/// A type that can be stored in a histogram bin: it has a default
/// starting value and can be copied out.
pub trait Value: Sized {
    /// The starting value of an untouched bin.
    spec fn spec_default() -> Self;

    /// Build the starting value of an untouched bin.
    fn default_value() -> (r: Self)
        ensures
            r == Self::spec_default(),
    ;

    /// An owned copy of this value.
    fn clone_value(&self) -> (r: Self)
        ensures
            r == *self,
    ;
}

impl Value for i32 {
    open spec fn spec_default() -> Self {
        0
    }

    fn default_value() -> (r: Self) {
        0
    }

    fn clone_value(&self) -> (r: Self) {
        *self
    }
}

impl Value for i64 {
    open spec fn spec_default() -> Self {
        0
    }

    fn default_value() -> (r: Self) {
        0
    }

    fn clone_value(&self) -> (r: Self) {
        *self
    }
}

impl Value for u32 {
    open spec fn spec_default() -> Self {
        0
    }

    fn default_value() -> (r: Self) {
        0
    }

    fn clone_value(&self) -> (r: Self) {
        *self
    }
}

impl Value for u64 {
    open spec fn spec_default() -> Self {
        0
    }

    fn default_value() -> (r: Self) {
        0
    }

    fn clone_value(&self) -> (r: Self) {
        *self
    }
}

impl Value for usize {
    open spec fn spec_default() -> Self {
        0
    }

    fn default_value() -> (r: Self) {
        0
    }

    fn clone_value(&self) -> (r: Self) {
        *self
    }
}

/// An element-wise operation between two histograms.
#[derive(Copy, Clone, PartialEq, Eq, Structural, Debug)]
pub enum BinaryOp {
    /// Element-wise addition.
    Add,
    /// Element-wise subtraction.
    Sub,
    /// Element-wise multiplication.
    Mul,
    /// Element-wise division.
    Div,
}

/// A bin value that supports element-wise histogram algebra.
pub trait Combine: Value {
    /// Whether applying `op` to this value and `other` stays within the
    /// value type.
    spec fn spec_can_op(&self, op: BinaryOp, other: &Self) -> bool;

    /// The result of applying `op` to this value and `other`.
    spec fn spec_op(&self, op: BinaryOp, other: &Self) -> Self;

    /// Apply `op` to this value and `other`.
    fn op_value(&self, op: BinaryOp, other: &Self) -> (r: Self)
        requires
            self.spec_can_op(op, other),
        ensures
            r == self.spec_op(op, other),
    ;

    /// Subtracting a value from itself always succeeds and yields the
    /// default value.
    proof fn sub_self_is_default(&self)
        ensures
            self.spec_can_op(BinaryOp::Sub, self),
            self.spec_op(BinaryOp::Sub, self) == Self::spec_default(),
    ;
}

impl Combine for i64 {
    open spec fn spec_can_op(&self, op: BinaryOp, other: &Self) -> bool {
        match op {
            BinaryOp::Add => i64::MIN <= *self as int + *other as int <= i64::MAX,
            BinaryOp::Sub => i64::MIN <= *self as int - *other as int <= i64::MAX,
            BinaryOp::Mul => i64::MIN <= *self as int * *other as int <= i64::MAX,
            BinaryOp::Div => *other != 0 && !(*self == i64::MIN && *other == -1),
        }
    }

    open spec fn spec_op(&self, op: BinaryOp, other: &Self) -> Self {
        match op {
            BinaryOp::Add => (*self as int + *other as int) as i64,
            BinaryOp::Sub => (*self as int - *other as int) as i64,
            BinaryOp::Mul => (*self as int * *other as int) as i64,
            BinaryOp::Div => if *self >= 0 {
                (*self as int / *other as int) as i64
            } else {
                (-((-(*self as int)) / (*other as int))) as i64
            },
        }
    }

    fn op_value(&self, op: BinaryOp, other: &Self) -> (r: Self) {
        match op {
            BinaryOp::Add => *self + *other,
            BinaryOp::Sub => *self - *other,
            BinaryOp::Mul => *self * *other,
            BinaryOp::Div => *self / *other,
        }
    }

    proof fn sub_self_is_default(&self) {
    }
}

/// One bin of a histogram: its linear index, the interval of coordinates
/// it covers, and its accumulated value.
#[derive(Copy, Clone, PartialEq, Eq, Debug, Hash)]
pub struct Item<T, V> {
    /// The linear bin index.
    pub index: usize,
    /// The interval of coordinates the bin covers.
    pub bin: T,
    /// The accumulated bin value.
    pub value: V,
}

impl<T, V> Item<T, V> {
    /// Bundle an index, a bin interval, and a value.
    pub fn new(index: usize, bin: T, value: V) -> (r: Self)
        ensures
            r == (Item { index, bin, value }),
    {
        Item { index, bin, value }
    }
}

/// A store of bin values addressed by the linear bin indices of a set of
/// axes.
pub trait Histogram<A: Axes, V: Value>: Sized {
    /// The axes that map coordinates to bin indices.
    spec fn spec_axes(&self) -> A;

    /// Whether this histogram is well formed.  Constructors only ever
    /// build well-formed histograms.
    spec fn wf(&self) -> bool;

    /// The value physically stored for a bin index, if one is stored.
    /// A sparse store keeps no value for an untouched bin, even though
    /// the bin logically holds the default value.
    spec fn spec_value_at(&self, index: int) -> Option<V>;

    /// A well-formed histogram has well-formed axes.
    proof fn wf_implies_axes_wf(&self)
        requires
            self.wf(),
        ensures
            self.spec_axes().wf(),
    ;

    /// The axes of this histogram.
    fn axes(&self) -> (r: &A)
        ensures
            *r == self.spec_axes(),
    ;

    /// Read the stored value of the bin with the given index.
    fn value_at_index(&self, index: usize) -> (r: Option<&V>)
        requires
            self.wf(),
        ensures
            match r {
                Some(v) => self.spec_value_at(index as int) == Some(*v),
                None => self.spec_value_at(index as int) is None,
            },
    ;

    /// Read the stored value of the bin that the coordinate falls in.
    fn value(&self, coordinate: &A::Coordinate) -> (r: Option<&V>)
        requires
            self.wf(),
        ensures
            match self.spec_axes().spec_index(coordinate) {
                Some(i) => match r {
                    Some(v) => self.spec_value_at(i as int) == Some(*v),
                    None => self.spec_value_at(i as int) is None,
                },
                None => r is None,
            },
    {
        proof {
            self.wf_implies_axes_wf();
        }
        match self.axes().index(coordinate) {
            Some(i) => self.value_at_index(i),
            None => None,
        }
    }
}

/// `s` extended with default values up to length `n`; `s` itself when it
/// is already that long.
pub open spec fn padded_values<V: Value>(s: Seq<V>, n: int) -> Seq<V> {
    if n <= s.len() {
        s
    } else {
        s + Seq::new((n - s.len()) as nat, |i: int| V::spec_default())
    }
}

} // verus!
