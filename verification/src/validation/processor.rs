//! Runs a value through the sanitizers, then past the validators.

use crate::validation::data_holder::ValidatedData;
use crate::validation::errors::ValidatorError;
use crate::validation::rules::{SanitizerRule, ValidatorRule};
use crate::validation::sanitizer::{ToLowerCaseSanitizer, TrimWhitespaceSanitizer};
use crate::text::{debug_text, lowercase, trimmed, trimmed_end};
use crate::validation::validator::{
    byte_len, captures, EmailFormatValidator, MinLengthValidator, EMAIL_PATTERN,
};
use std::fmt::Debug;
use vstd::prelude::*;
use vstd::string::StringExecFns;

verus! {

/// `steps` lists the values that `rules` turn `before` into, one rule after
/// the other: it starts with `before`, and each rule cleans one entry into
/// the next.
pub open spec fn sanitizing_steps<T>(
    rules: Seq<Box<dyn SanitizerRule<T>>>,
    before: T,
    steps: Seq<T>,
) -> bool {
    &&& steps.len() == rules.len() + 1
    &&& steps[0] == before
    &&& forall|i: int| 0 <= i < rules.len() ==> (#[trigger] rules[i]).cleans(steps[i], steps[i + 1])
}

/// `after` results from `before` by applying `rules` one after the other.
pub open spec fn sanitized_by<T>(rules: Seq<Box<dyn SanitizerRule<T>>>, before: T, after: T) -> bool {
    exists|steps: Seq<T>| #[trigger] sanitizing_steps(rules, before, steps) && steps.last() == after
}

/// Every rule in `rules` holds of `data`.
pub open spec fn accepted_by<T>(rules: Seq<Box<dyn ValidatorRule<T>>>, data: T) -> bool {
    forall|i: int| 0 <= i < rules.len() ==> (#[trigger] rules[i]).accepts(&data)
}

/// Every rule in `rules` holds of `data`, and none of them leaves its
/// verdict to anything but `data`.
pub open spec fn surely_accepted_by<T>(rules: Seq<Box<dyn ValidatorRule<T>>>, data: T) -> bool {
    forall|i: int|
        0 <= i < rules.len() ==> (#[trigger] rules[i]).accepts(&data) && rules[i].settles(&data)
}

/// The message for a value that a rule turned down: it shows the value
/// and the rule's own error.
fn rejection<T: Debug>(data: &T, cause: &ValidatorError) -> (message: String)
    ensures
        is_rejection(message@),
{
    let shown = debug_text(data);
    let why = debug_text(cause);
    let message = String::from_str("Could not validate data ").concat(shown.as_str()).concat(
        ", cause: ",
    ).concat(why.as_str());
    proof {
        assert(message@ == rejection_text(shown@, why@));
    }
    message
}

/// The text that tells that the value shown as `shown` was turned down for
/// the reason shown as `why`.
pub open spec fn rejection_text(shown: Seq<char>, why: Seq<char>) -> Seq<char> {
    "Could not validate data "@ + shown + ", cause: "@ + why
}

/// `text` tells of some value that it was turned down for some reason.
pub open spec fn is_rejection(text: Seq<char>) -> bool {
    exists|shown: Seq<char>, why: Seq<char>| text == #[trigger] rejection_text(shown, why)
}

/// A list of sanitizers and a list of validators for values of one type.
#[verifier::reject_recursive_types(T)]
pub struct DataProcessor<T> {
    validators: Vec<Box<dyn ValidatorRule<T>>>,
    sanitizers: Vec<Box<dyn SanitizerRule<T>>>,
}

impl<T: Debug + Default> DataProcessor<T> {
    /// The validators, in the order in which they are asked.
    pub closed spec fn validators(&self) -> Seq<Box<dyn ValidatorRule<T>>> {
        self.validators@
    }

    /// The sanitizers, in the order in which they are applied.
    pub closed spec fn sanitizers(&self) -> Seq<Box<dyn SanitizerRule<T>>> {
        self.sanitizers@
    }

    /// A processor with the given rules.
    pub fn new(
        validators: Vec<Box<dyn ValidatorRule<T>>>,
        sanitizers: Vec<Box<dyn SanitizerRule<T>>>,
    ) -> (processor: Self)
        ensures
            processor.validators() == validators@,
            processor.sanitizers() == sanitizers@,
    {
        Self { validators, sanitizers }
    }

    /// Takes the value out of `data`, leaving a default value behind, cleans
    /// it with every sanitizer in turn and asks every validator.  The cleaned
    /// value comes back if all validators pass it; the first one that does
    /// not ends the run with a validation error.
    pub fn process(&self, data: &mut T) -> (outcome: Result<ValidatedData<T>, ValidatorError>)
        ensures
            call_ensures(T::default, (), *final(data)),
            exists|clean: T|
                {
                    &&& #[trigger] sanitized_by(self.sanitizers(), *old(data), clean)
                    &&& match outcome {
                        Ok(passed) => passed.held() == clean && accepted_by(
                            self.validators(),
                            clean,
                        ),
                        Err(error) => {
                            &&& error matches ValidatorError::ValidationError(message)
                            &&& is_rejection(message@)
                            &&& !surely_accepted_by(self.validators(), clean)
                        },
                    }
                },
    {
        let mut sanitized_data = T::default();
        std::mem::swap(data, &mut sanitized_data);
        let ghost given = sanitized_data;
        let ghost left = *data;
        let ghost mut steps: Seq<T> = seq![given];
        let mut s: usize = 0;
        while s < self.sanitizers.len()
            invariant
                s <= self.sanitizers.len(),
                *data == left,
                call_ensures(T::default, (), left),
                given == *old(data),
                sanitizing_steps(self.sanitizers@.take(s as int), given, steps),
                steps.last() == sanitized_data,
            decreases self.sanitizers.len() - s,
        {
            sanitized_data = self.sanitizers[s].sanitize(&mut sanitized_data);
            proof {
                steps = steps.push(sanitized_data);
            }
            s += 1;
        }
        proof {
            assert(self.sanitizers@.take(s as int) =~= self.sanitizers@);
        }
        let mut v: usize = 0;
        while v < self.validators.len()
            invariant
                v <= self.validators.len(),
                *data == left,
                call_ensures(T::default, (), left),
                given == *old(data),
                sanitized_by(self.sanitizers@, given, sanitized_data),
                forall|i: int|
                    0 <= i < v ==> (#[trigger] self.validators@[i]).accepts(&sanitized_data),
            decreases self.validators.len() - v,
        {
            match self.validators[v].validate(&sanitized_data) {
                Ok(()) => {},
                Err(e) => {
                    proof {
                        let rule = self.validators()[v as int];
                        assert(!(rule.accepts(&sanitized_data) && rule.settles(&sanitized_data)));
                        assert(!surely_accepted_by(self.validators(), sanitized_data));
                        assert(sanitized_by(self.sanitizers(), *old(data), sanitized_data));
                    }
                    return Err(ValidatorError::ValidationError(rejection(&sanitized_data, &e)));
                },
            }
            v += 1;
        }
        proof {
            assert(accepted_by(self.validators(), sanitized_data));
            assert(sanitized_by(self.sanitizers(), *old(data), sanitized_data));
        }
        Ok(ValidatedData::new(sanitized_data))
    }
}

/// A processor for e-mail addresses of at most 20 bytes: the text is
/// trimmed and put in lower case, then checked against the e-mail pattern
/// and the length bound.
pub fn create_processor_email_max_len_20() -> (processor: DataProcessor<String>)
    ensures
        processor.validators().len() == 2,
        processor.sanitizers().len() == 2,
        forall|data: String|
            #![trigger processor.validators()[0].accepts(&data)]
            processor.validators()[0].accepts(&data) == captures(EMAIL_PATTERN@, data@),
        forall|data: String|
            #![trigger processor.validators()[1].accepts(&data)]
            processor.validators()[1].accepts(&data) == (0 < data@.len() && byte_len(data@) <= 20),
        forall|before: String, after: String|
            #![trigger processor.sanitizers()[0].cleans(before, after)]
            processor.sanitizers()[0].cleans(before, after) == (after@ == trimmed_end(
                trimmed(before@),
            )),
        forall|before: String, after: String|
            #![trigger processor.sanitizers()[1].cleans(before, after)]
            processor.sanitizers()[1].cleans(before, after) == (after@ == lowercase(before@)),
{
    let validators: Vec<Box<dyn ValidatorRule<String>>> = vec![
        Box::new(EmailFormatValidator::new()),
        Box::new(MinLengthValidator::new(20)),
    ];
    let sanitizers: Vec<Box<dyn SanitizerRule<String>>> = vec![
        Box::new(TrimWhitespaceSanitizer::new()),
        Box::new(ToLowerCaseSanitizer::new()),
    ];
    DataProcessor::new(validators, sanitizers)
}

} // verus!
