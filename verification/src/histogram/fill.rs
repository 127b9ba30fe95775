//! The bin-value accumulation protocol.

use vstd::prelude::*;

verus! {

/// Fill a histogram bin value with unit weight.
pub trait Fill {
    /// Whether one more unit fill stays within the value type.
    spec fn spec_can_fill(&self) -> bool where Self: Sized;

    /// The value after one unit fill.
    spec fn spec_fill(&self) -> Self where Self: Sized;

    /// Fill this value with unit weight.  For a plain number this
    /// increments it by one.
    fn fill(&mut self) where Self: Sized
        requires
            old(self).spec_can_fill(),
        ensures
            *final(self) == old(self).spec_fill(),
    ;
}

/// Fill a histogram bin value with a datum.
pub trait FillWith<D> {
    /// Whether accumulating `data` stays within the value type.
    spec fn spec_can_fill_with(&self, data: D) -> bool where Self: Sized, D: Sized;

    /// The value after accumulating `data`.
    spec fn spec_fill_with(&self, data: D) -> Self where Self: Sized, D: Sized;

    /// Fill this value with a datum.  For a plain number this adds the
    /// datum.
    fn fill_with(&mut self, data: D) where Self: Sized, D: Sized
        requires
            old(self).spec_can_fill_with(data),
        ensures
            *final(self) == old(self).spec_fill_with(data),
    ;
}

/// Fill a histogram bin value with a datum and an explicit weight.
pub trait FillWithWeighted<D, W> {
    /// Whether accumulating `data` with weight `weight` stays within the
    /// value type.
    spec fn spec_can_fill_with_weighted(&self, data: D, weight: W) -> bool where
        Self: Sized,
        D: Sized,
        W: Sized,
    ;

    /// The value after accumulating `data` with weight `weight`.
    spec fn spec_fill_with_weighted(&self, data: D, weight: W) -> Self where
        Self: Sized,
        D: Sized,
        W: Sized,
    ;

    /// Fill this value with a weighted datum.
    fn fill_with_weighted(&mut self, data: D, weight: W) where Self: Sized, D: Sized, W: Sized
        requires
            old(self).spec_can_fill_with_weighted(data, weight),
        ensures
            *final(self) == old(self).spec_fill_with_weighted(data, weight),
    ;
}

impl Fill for i32 {
    open spec fn spec_can_fill(&self) -> bool {
        *self < i32::MAX
    }

    open spec fn spec_fill(&self) -> Self {
        (*self + 1) as i32
    }

    fn fill(&mut self) {
        *self = *self + 1;
    }
}

impl Fill for i64 {
    open spec fn spec_can_fill(&self) -> bool {
        *self < i64::MAX
    }

    open spec fn spec_fill(&self) -> Self {
        (*self + 1) as i64
    }

    fn fill(&mut self) {
        *self = *self + 1;
    }
}

impl Fill for u32 {
    open spec fn spec_can_fill(&self) -> bool {
        *self < u32::MAX
    }

    open spec fn spec_fill(&self) -> Self {
        (*self + 1) as u32
    }

    fn fill(&mut self) {
        *self = *self + 1;
    }
}

impl Fill for u64 {
    open spec fn spec_can_fill(&self) -> bool {
        *self < u64::MAX
    }

    open spec fn spec_fill(&self) -> Self {
        (*self + 1) as u64
    }

    fn fill(&mut self) {
        *self = *self + 1;
    }
}

impl Fill for usize {
    open spec fn spec_can_fill(&self) -> bool {
        *self < usize::MAX
    }

    open spec fn spec_fill(&self) -> Self {
        (*self + 1) as usize
    }

    fn fill(&mut self) {
        *self = *self + 1;
    }
}

impl FillWith<i32> for i32 {
    open spec fn spec_can_fill_with(&self, data: i32) -> bool {
        i32::MIN <= *self as int + data as int <= i32::MAX
    }

    open spec fn spec_fill_with(&self, data: i32) -> Self {
        (*self as int + data as int) as i32
    }

    fn fill_with(&mut self, data: i32) {
        *self = *self + data;
    }
}

impl FillWith<i64> for i64 {
    open spec fn spec_can_fill_with(&self, data: i64) -> bool {
        i64::MIN <= *self as int + data as int <= i64::MAX
    }

    open spec fn spec_fill_with(&self, data: i64) -> Self {
        (*self as int + data as int) as i64
    }

    fn fill_with(&mut self, data: i64) {
        *self = *self + data;
    }
}

impl FillWith<u64> for u64 {
    open spec fn spec_can_fill_with(&self, data: u64) -> bool {
        *self as int + data as int <= u64::MAX
    }

    open spec fn spec_fill_with(&self, data: u64) -> Self {
        (*self as int + data as int) as u64
    }

    fn fill_with(&mut self, data: u64) {
        *self = *self + data;
    }
}

} // verus!
