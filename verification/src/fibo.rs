//! The Fibonacci numbers that fit in 128 bits.

use crate::text::{parse_u32, parsed_u32, trimmed};
use vstd::prelude::*;

verus! {

/// The Fibonacci number at position `n`, counting from `fib(0) == 0`.
pub open spec fn fib(n: nat) -> nat
    decreases n,
{
    if n == 0 {
        0
    } else if n == 1 {
        1
    } else {
        fib((n - 1) as nat) + fib((n - 2) as nat)
    }
}

/// The first `n` Fibonacci numbers, or as many of them as fit in a `u128`:
/// the list ends before the first number that does not fit.
pub fn generate_fibonacci(n: u32) -> (numbers: Vec<u128>)
    ensures
        numbers@.len() <= n,
        forall|i: int| 0 <= i < numbers@.len() ==> numbers@[i] == fib(i as nat),
        numbers@.len() < n ==> fib(numbers@.len()) > u128::MAX,
{
    let mut fib_vec: Vec<u128> = Vec::new();
    if n > 0 {
        fib_vec.push(0);
        if n > 1 {
            fib_vec.push(1);
            let mut i: usize = 2;
            while i < n as usize
                invariant
                    2 <= i <= n,
                    fib_vec@.len() == i,
                    forall|j: int| 0 <= j < i ==> fib_vec@[j] == fib(j as nat),
                decreases n - i,
            {
                let first = fib_vec[i - 1];
                let second = fib_vec[i - 2];
                match first.checked_add(second) {
                    Some(sum) => {
                        fib_vec.push(sum);
                    },
                    None => {
                        return fib_vec;
                    },
                }
                i += 1;
            }
        }
    }
    fib_vec
}

/// The count that a line of input asks for: the number it denotes once the
/// white space around it is gone.
pub fn read_count(line: &str) -> (count: Option<u32>)
    ensures
        count == parsed_u32(trimmed(line@)),
{
    parse_u32(line.trim())
}

} // verus!
