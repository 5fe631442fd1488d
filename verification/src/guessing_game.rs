//! A number-guessing game: a secret number and a few guesses at it.

use crate::text::{parse_usize, parsed_usize, trimmed};
use rand::Rng;
use vstd::prelude::*;

verus! {

/// The generator of the `rand` crate that belongs to the running thread.
#[verifier::external_type_specification]
#[verifier::external_body]
pub struct ExThreadRng(rand::rngs::ThreadRng);

/// `rand::rng`: a handle to the thread's generator.
#[verifier::external_body]
fn thread_rng() -> rand::rngs::ThreadRng {
    rand::rng()
}

/// `rand::Rng::random_range` on an inclusive range that is not empty: some
/// number of that range.
#[verifier::external_body]
fn random_between(rng: &mut rand::rngs::ThreadRng, low: usize, high: usize) -> (number: usize)
    requires
        low <= high,
    ensures
        low <= number <= high,
{
    rng.random_range(low..=high)
}

/// The largest secret number.
pub const LARGEST_SECRET: usize = 100;

/// The number of guesses a player has.
pub const GUESSES: u32 = 5;

/// A number between 0 and 100, both included.
pub fn generate_random_int() -> (number: usize)
    ensures
        number <= LARGEST_SECRET,
{
    let mut rng = thread_rng();
    random_between(&mut rng, 0, LARGEST_SECRET)
}

/// How a guess compares with the secret number.
#[derive(Debug, PartialEq, Eq, Clone, Copy, Structural)]
pub enum Verdict {
    Correct,
    TooBig,
    TooSmall,
}

/// How `guess` compares with `actual`.
pub open spec fn verdict_of(guess: usize, actual: usize) -> Verdict {
    if guess == actual {
        Verdict::Correct
    } else if guess > actual {
        Verdict::TooBig
    } else {
        Verdict::TooSmall
    }
}

/// Compares a guess with the secret number.
pub fn judge(guess: &usize, actual: &usize) -> (verdict: Verdict)
    ensures
        verdict == verdict_of(*guess, *actual),
{
    if *guess == *actual {
        Verdict::Correct
    } else if *guess > *actual {
        Verdict::TooBig
    } else {
        Verdict::TooSmall
    }
}

/// Whether the guess is the secret number.
pub fn equal(guess: &usize, actual: &usize) -> (same: bool)
    ensures
        same == (*guess == *actual),
{
    match judge(guess, actual) {
        Verdict::Correct => true,
        Verdict::TooBig => false,
        Verdict::TooSmall => false,
    }
}

/// What a line of input did to the game.
#[derive(Debug, PartialEq, Eq, Clone, Copy, Structural)]
pub enum Turn {
    /// The line is no number; no guess was used up.
    Unreadable,
    /// The guess is the secret number.
    Won,
    /// The guess is wrong, and there are guesses left.
    Missed(Verdict),
    /// The guess is wrong and was the last one; the secret number is told.
    Lost(Verdict, usize),
}

/// A game in progress.
#[derive(Debug)]
pub struct Game {
    secret: usize,
    guesses_left: u32,
}

impl Game {
    /// The number to guess.
    pub closed spec fn secret(&self) -> usize {
        self.secret
    }

    /// The number of guesses left.
    pub closed spec fn left(&self) -> u32 {
        self.guesses_left
    }

    /// A game about `secret`, with all guesses left.
    pub fn new(secret: usize) -> (game: Self)
        ensures
            game.secret() == secret,
            game.left() == GUESSES,
    {
        Self { secret, guesses_left: GUESSES }
    }

    /// A game about a number drawn at random.
    pub fn start() -> (game: Self)
        ensures
            game.secret() <= LARGEST_SECRET,
            game.left() == GUESSES,
    {
        Self::new(generate_random_int())
    }

    pub fn guesses_left(&self) -> (left: u32)
        ensures
            left == self.left(),
    {
        self.guesses_left
    }

    /// What a guess does to a game that has guesses left: the turn it makes,
    /// and the guesses left after it.
    pub open spec fn turn_of(secret: usize, left: u32, guess: Option<usize>) -> (Turn, u32) {
        match guess {
            None => (Turn::Unreadable, left),
            Some(number) => if number == secret {
                (Turn::Won, left)
            } else if left == 1 {
                (Turn::Lost(verdict_of(number, secret), secret), 0u32)
            } else {
                (Turn::Missed(verdict_of(number, secret)), (left - 1) as u32)
            },
        }
    }

    /// Takes one guess, or a line that was no number.  A wrong guess uses up
    /// one of the guesses left.
    pub fn play(&mut self, guess: Option<usize>) -> (turn: Turn)
        requires
            old(self).left() > 0,
        ensures
            final(self).secret() == old(self).secret(),
            (turn, final(self).left()) == Self::turn_of(old(self).secret(), old(self).left(), guess),
    {
        match guess {
            None => Turn::Unreadable,
            Some(number) => {
                let verdict = judge(&number, &self.secret);
                match verdict {
                    Verdict::Correct => Turn::Won,
                    _ => {
                        self.guesses_left -= 1;
                        if self.guesses_left == 0 {
                            Turn::Lost(verdict, self.secret)
                        } else {
                            Turn::Missed(verdict)
                        }
                    },
                }
            },
        }
    }

    /// Takes one line of input as a guess.
    pub fn guess(&mut self, line: &str) -> (turn: Turn)
        requires
            old(self).left() > 0,
        ensures
            final(self).secret() == old(self).secret(),
            (turn, final(self).left()) == Self::turn_of(
                old(self).secret(),
                old(self).left(),
                parsed_usize(trimmed(line@)),
            ),
    {
        self.play(parse_usize(line.trim()))
    }
}

} // verus!
