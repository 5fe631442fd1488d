//! Rules that clean a string.

use crate::text::{lowercase, trimmed, trimmed_end};
use crate::validation::rules::SanitizerRule;
use vstd::prelude::*;
use vstd::string::StringExecFns;

verus! {

/// Turns a string into lower case.
pub struct ToLowerCaseSanitizer;

impl ToLowerCaseSanitizer {
    pub fn new() -> Self {
        Self {  }
    }
}

impl SanitizerRule<String> for ToLowerCaseSanitizer {
    open spec fn cleans(&self, before: String, after: String) -> bool {
        after@ == lowercase(before@)
    }

    fn sanitize(&self, data: &mut String) -> (clean: String) {
        data.as_str().to_lowercase()
    }
}

/// Strips the white space around a string.
pub struct TrimWhitespaceSanitizer;

impl TrimWhitespaceSanitizer {
    pub fn new() -> Self {
        Self {  }
    }
}

impl SanitizerRule<String> for TrimWhitespaceSanitizer {
    open spec fn cleans(&self, before: String, after: String) -> bool {
        after@ == trimmed_end(trimmed(before@))
    }

    fn sanitize(&self, data: &mut String) -> (clean: String) {
        String::from_str(data.as_str().trim().trim_end())
    }
}

} // verus!
