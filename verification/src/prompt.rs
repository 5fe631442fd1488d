//! Reading an answer to "once more?".

use crate::text::{lowercase, same_text, trimmed};
use vstd::prelude::*;

verus! {

/// What the answer to "once more?" came to.
#[derive(Debug, PartialEq, Eq, Clone, Copy, Structural)]
pub enum Choice {
    /// Yes.
    Again,
    /// No.
    Quit,
    /// Neither: ask again.
    Unclear,
}

/// The choice that `said` stands for: `y` and `yes` mean yes, `n` and `no`
/// mean no.
pub open spec fn choice_said(said: Seq<char>) -> Choice {
    if said == "y"@ || said == "yes"@ {
        Choice::Again
    } else if said == "n"@ || said == "no"@ {
        Choice::Quit
    } else {
        Choice::Unclear
    }
}

/// The choice that an answer stands for once it is trimmed and put in lower
/// case.
pub open spec fn choice_of(answer: Seq<char>) -> Choice {
    choice_said(lowercase(trimmed(answer)))
}

/// The choice that `said` stands for, letter for letter.
pub fn choice_from(said: &str) -> (choice: Choice)
    ensures
        choice == choice_said(said@),
{
    if same_text(said, "y") || same_text(said, "yes") {
        Choice::Again
    } else if same_text(said, "n") || same_text(said, "no") {
        Choice::Quit
    } else {
        Choice::Unclear
    }
}

/// Reads the answer to "once more?".
pub fn replay_choice(answer: &str) -> (choice: Choice)
    ensures
        choice == choice_of(answer@),
{
    let user_input = answer.trim().to_lowercase();
    choice_from(user_input.as_str())
}

} // verus!
