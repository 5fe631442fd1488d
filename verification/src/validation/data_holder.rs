//! The value that comes out of a successful validation.

use std::fmt::Debug;
use vstd::prelude::*;

verus! {

/// A value that has passed every rule of a processor.
#[derive(Debug, PartialEq)]
pub struct ValidatedData<T: Debug> {
    value: T,
}

impl<T: Debug> ValidatedData<T> {
    /// The value held.
    pub closed spec fn held(&self) -> T {
        self.value
    }

    /// Wraps `value`.
    pub fn new(value: T) -> (data: Self)
        ensures
            data.held() == value,
    {
        Self { value }
    }

    /// The value held.
    pub fn value(&self) -> (value: &T)
        ensures
            *value == self.held(),
    {
        &self.value
    }
}

/// A borrowed value that has passed every rule of a processor.
#[derive(Debug, PartialEq)]
pub struct ValidatedDate<'a, T: Debug> {
    value: &'a T,
}

} // verus!
