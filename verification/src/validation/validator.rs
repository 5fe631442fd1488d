//! Rules that accept or reject a value.

use crate::validation::errors::ValidatorError;
use crate::validation::rules::ValidatorRule;
use crate::text::{decimal, usize_text};
use vstd::prelude::*;
use vstd::string::StringExecFns;
use vstd::utf8::encode_utf8;

verus! {

/// Whether the regular expression `pattern` finds a match in `haystack`, as
/// `regex::Regex::captures` decides it for the expression that
/// `regex::Regex::new` compiles `pattern` to.
pub uninterp spec fn captures(pattern: Seq<char>, haystack: Seq<char>) -> bool;

/// The compiled regular expression of the `regex` crate.
#[verifier::external_type_specification]
#[verifier::external_body]
pub struct ExRegex(regex::Regex);

/// A regular expression together with the text it was compiled from.  Only
/// `compile` makes one, so the two belong together.
struct Pattern {
    source: String,
    compiled: regex::Regex,
}

impl Pattern {
    /// The text the expression was compiled from.
    closed spec fn source(&self) -> Seq<char> {
        self.source@
    }

    /// `regex::Regex::new`: compiles `source`.  Whether that succeeds is for
    /// the `regex` crate to say.
    #[verifier::external_body]
    fn compile(source: &str) -> (made: Result<Pattern, regex::Error>)
        ensures
            made matches Ok(pattern) ==> pattern.source() == source@,
    {
        match regex::Regex::new(source) {
            Ok(compiled) => Ok(Pattern { source: source.to_string(), compiled }),
            Err(error) => Err(error),
        }
    }

    /// `regex::Regex::captures`: whether the expression matches somewhere
    /// in `haystack`.
    #[verifier::external_body]
    fn found_in(&self, haystack: &str) -> (hit: bool)
        ensures
            hit == captures(self.source(), haystack@),
    {
        self.compiled.captures(haystack).is_some()
    }
}

/// The message for a value that is longer than allowed.
fn too_long_message(limit: usize, length: usize) -> (message: String)
    ensures
        message@ == too_long_text(limit, length),
{
    String::from_str("Data should not exceed ").concat(usize_text(limit).as_str()).concat(
        " but was ",
    ).concat(usize_text(length).as_str())
}

/// The text that tells that `length` bytes are more than `limit`.
pub open spec fn too_long_text(limit: usize, length: usize) -> Seq<char> {
    "Data should not exceed "@ + decimal(limit as nat) + " but was "@ + decimal(length as nat)
}

/// The pattern an e-mail address has to match as a whole.
pub const EMAIL_PATTERN: &'static str = r"^[a-zA-Z0-9._%+-]+@[a-zA-Z0-9.-]+\.[a-zA-Z]{2,}$";

/// The number of bytes that `text` takes in UTF-8.
pub open spec fn byte_len(text: Seq<char>) -> usize {
    encode_utf8(text).len() as usize
}

/// Accepts strings that look like an e-mail address.
pub struct EmailFormatValidator;

/// The verdict on a value, given what the search for the e-mail pattern in
/// it came to: a match passes, no match is a validation error, and a pattern
/// that did not compile is passed on as such.
pub fn email_verdict(found: Result<bool, regex::Error>) -> (verdict: Result<(), ValidatorError>)
    ensures
        match found {
            Ok(hit) => if hit {
                verdict is Ok
            } else {
                &&& verdict matches Err(ValidatorError::ValidationError(message))
                &&& message@ == "{data} is not a valid email"@
            },
            Err(error) => verdict == Err::<(), ValidatorError>(
                ValidatorError::RegexValidationError(error),
            ),
        },
{
    match found {
        Ok(hit) => {
            if hit {
                Ok(())
            } else {
                Err(ValidatorError::ValidationError(String::from_str("{data} is not a valid email")))
            }
        },
        Err(error) => Err(ValidatorError::from(error)),
    }
}

impl EmailFormatValidator {
    pub fn new() -> Self {
        Self {  }
    }
}

impl ValidatorRule<String> for EmailFormatValidator {
    open spec fn accepts(&self, data: &String) -> bool {
        captures(EMAIL_PATTERN@, data@)
    }

    /// Whether the pattern compiles is for the `regex` crate to say.
    open spec fn settles(&self, data: &String) -> bool {
        false
    }

    fn validate(&self, data: &String) -> (verdict: Result<(), ValidatorError>)
        ensures
            verdict matches Err(ValidatorError::ValidationError(message)) ==> message@
                == "{data} is not a valid email"@,
    {
        match Pattern::compile(EMAIL_PATTERN) {
            Ok(pattern) => email_verdict(Ok(pattern.found_in(data.as_str()))),
            Err(error) => email_verdict(Err(error)),
        }
    }
}

/// Accepts non-empty text of at most a given number of bytes.
pub struct MinLengthValidator {
    length: usize,
}

impl MinLengthValidator {
    /// The largest number of bytes accepted.
    pub closed spec fn limit(&self) -> usize {
        self.length
    }

    /// A validator that accepts up to `length` bytes.
    pub fn new(length: usize) -> (validator: Self)
        ensures
            validator.limit() == length,
    {
        Self { length }
    }

    /// `text` is not empty and takes at most `limit` bytes.
    pub open spec fn fits(&self, text: Seq<char>) -> bool {
        0 < text.len() && byte_len(text) <= self.limit()
    }

    fn check(&self, data: &str) -> (verdict: Result<(), ValidatorError>)
        ensures
            verdict is Ok <==> self.fits(data@),
            data@.len() == 0 ==> (verdict matches Err(ValidatorError::ValidationError(message))
                && message@ == "Data should be non empty"@),
            data@.len() > 0 && !self.fits(data@) ==> (verdict matches Err(
                ValidatorError::ValidationError(message),
            ) && message@ == too_long_text(self.limit(), byte_len(data@))),
    {
        if data.is_empty() {
            Err(ValidatorError::ValidationError(String::from_str("Data should be non empty")))
        } else if data.len() > self.length {
            Err(ValidatorError::ValidationError(too_long_message(self.length, data.len())))
        } else {
            Ok(())
        }
    }
}

impl ValidatorRule<String> for MinLengthValidator {
    open spec fn accepts(&self, data: &String) -> bool {
        self.fits(data@)
    }

    open spec fn settles(&self, data: &String) -> bool {
        true
    }

    fn validate(&self, data: &String) -> (verdict: Result<(), ValidatorError>)
        ensures
            verdict is Ok <==> self.fits(data@),
            data@.len() == 0 ==> (verdict matches Err(ValidatorError::ValidationError(message))
                && message@ == "Data should be non empty"@),
            data@.len() > 0 && !self.fits(data@) ==> (verdict matches Err(
                ValidatorError::ValidationError(message),
            ) && message@ == too_long_text(self.limit(), byte_len(data@))),
    {
        self.check(data.as_str())
    }
}

impl ValidatorRule<str> for MinLengthValidator {
    open spec fn accepts(&self, data: &str) -> bool {
        self.fits(data@)
    }

    open spec fn settles(&self, data: &str) -> bool {
        true
    }

    fn validate(&self, data: &str) -> (verdict: Result<(), ValidatorError>)
        ensures
            verdict is Ok <==> self.fits(data@),
            data@.len() == 0 ==> (verdict matches Err(ValidatorError::ValidationError(message))
                && message@ == "Data should be non empty"@),
            data@.len() > 0 && !self.fits(data@) ==> (verdict matches Err(
                ValidatorError::ValidationError(message),
            ) && message@ == too_long_text(self.limit(), byte_len(data@))),
    {
        self.check(data)
    }
}

/// Accepts numbers above zero.
pub struct PositiveNumberValidator;

impl PositiveNumberValidator {
    pub fn new() -> Self {
        Self {  }
    }
}

impl ValidatorRule<i32> for PositiveNumberValidator {
    open spec fn accepts(&self, data: &i32) -> bool {
        *data > 0
    }

    open spec fn settles(&self, data: &i32) -> bool {
        true
    }

    fn validate(&self, data: &i32) -> (verdict: Result<(), ValidatorError>)
        ensures
            verdict is Ok <==> *data > 0,
            verdict matches Err(error) ==> (error matches ValidatorError::ValidationError(message)
                && message@ == "{data} is negative"@),
    {
        if *data > 0 {
            Ok(())
        } else {
            Err(ValidatorError::ValidationError(String::from_str("{data} is negative")))
        }
    }
}

} // verus!
