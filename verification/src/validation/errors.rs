//! What can go wrong while a value is validated.

use vstd::prelude::*;
use vstd::std_specs::convert::FromSpecImpl;

verus! {

/// The error of the `regex` crate, carried through untouched.
#[verifier::external_type_specification]
#[verifier::external_body]
pub struct ExRegexError(regex::Error);

/// Why a value was not validated.
#[derive(Debug)]
pub enum ValidatorError {
    /// A rule rejected the value; the text says why.
    ValidationError(String),
    /// A rule could not be applied because its pattern did not compile.
    RegexValidationError(regex::Error),
}

impl From<regex::Error> for ValidatorError {
    fn from(value: regex::Error) -> (error: Self) {
        ValidatorError::RegexValidationError(value)
    }
}

impl FromSpecImpl<regex::Error> for ValidatorError {
    open spec fn obeys_from_spec() -> bool {
        true
    }

    open spec fn from_spec(value: regex::Error) -> Self {
        ValidatorError::RegexValidationError(value)
    }
}

} // verus!
