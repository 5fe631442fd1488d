//! The two kinds of rule a processor applies.

use crate::validation::errors::ValidatorError;
use vstd::prelude::*;

verus! {

/// A rule that turns a value into its cleaned form.
pub trait SanitizerRule<T> {
    /// `after` is a cleaned form of `before` under this rule.
    spec fn cleans(&self, before: T, after: T) -> bool;

    /// Gives the cleaned form of `data` and leaves `data` as it was.
    fn sanitize(&self, data: &mut T) -> (clean: T)
        ensures
            self.cleans(*old(data), clean),
            *final(data) == *old(data),
    ;
}

/// A rule that accepts or rejects a value.
pub trait ValidatorRule<T: ?Sized> {
    /// The rule holds of `data`.
    spec fn accepts(&self, data: &T) -> bool;

    /// The rule's verdict on `data` depends on `data` alone, so that
    /// `validate` succeeds exactly where `accepts` holds.
    spec fn settles(&self, data: &T) -> bool;

    /// Checks `data` against the rule.  Success means that the rule holds; a
    /// `ValidationError` means that it does not.
    fn validate(&self, data: &T) -> (verdict: Result<(), ValidatorError>)
        ensures
            verdict is Ok ==> self.accepts(data),
            verdict matches Err(ValidatorError::ValidationError(_)) ==> !self.accepts(data),
            self.settles(data) && self.accepts(data) ==> verdict is Ok,
    ;
}

} // verus!
