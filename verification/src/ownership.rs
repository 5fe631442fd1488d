//! Small functions on strings: one that reads, one that changes, one that
//! borrows a part.

use crate::text::trimmed;
use vstd::prelude::*;
use vstd::string::{StringExecFns, StringSliceAdditionalSpecFns};
use vstd::utf8::{encode_utf8, is_char_boundary};

verus! {

/// The number of bytes of `s`.
pub fn calculates_length(s: &String) -> (length: usize)
    ensures
        length == encode_utf8(s@).len() as usize,
{
    s.as_str().len()
}

/// Appends ` and powerful!` to `s`.
pub fn modifies_string(s: &mut String)
    ensures
        final(s)@ == old(s)@ + " "@ + "and powerful!"@,
{
    s.append(" ");
    s.append("and powerful!");
}

/// `at` is the place of the first space among `bytes`.
pub open spec fn first_space(bytes: Seq<u8>, at: int) -> bool {
    &&& 0 <= at < bytes.len()
    &&& bytes[at] == 0x20
    &&& forall|i: int| 0 <= i < at ==> bytes[i] != 0x20
}

/// The start of `s`, as long as the first word of `s` without the white
/// space around it; all of `s` where that holds no space.
///
/// Where `s` begins with white space, the part returned begins with it too,
/// and is cut off where the trimmed text has its first space.  That place
/// has to lie between two characters of `s`.
pub fn first_word(s: &String) -> (word: &str)
    requires
        forall|at: int|
            first_space(encode_utf8(trimmed(s@)), at) ==> is_char_boundary(encode_utf8(s@), at),
    ensures
        forall|at: int|
            first_space(encode_utf8(trimmed(s@)), at) ==> word.spec_bytes() == encode_utf8(
                s@,
            ).subrange(0, at),
        (forall|at: int| !first_space(encode_utf8(trimmed(s@)), at)) ==> word@ == s@,
{
    let bytes = s.as_str().trim().as_bytes();
    let mut i: usize = 0;
    while i < bytes.len()
        invariant
            i <= bytes.len(),
            bytes@ == encode_utf8(trimmed(s@)),
            forall|at: int|
                first_space(encode_utf8(trimmed(s@)), at) ==> is_char_boundary(
                    encode_utf8(s@),
                    at,
                ),
            forall|j: int| 0 <= j < i ==> bytes@[j] != 0x20,
        decreases bytes.len() - i,
    {
        if bytes[i] == 0x20 {
            proof {
                assert(first_space(bytes@, i as int));
                assert forall|at: int| first_space(bytes@, at) implies at == i by {
                    if at < i {
                        assert(bytes@[at] != 0x20);
                    }
                }
            }
            let (word, _rest) = s.as_str().split_at(i);
            return word;
        }
        i += 1;
    }
    proof {
        assert forall|at: int| !first_space(bytes@, at) by {
            if first_space(bytes@, at) {
                assert(bytes@[at] != 0x20);
            }
        }
    }
    s.as_str()
}

/// `first_word` where it is defined: nothing where the place at which the
/// trimmed text has its first space lies inside a character of `s`.
pub fn try_first_word(s: &String) -> (word: Option<&str>)
    ensures
        match word {
            Some(part) => {
                &&& forall|at: int|
                    first_space(encode_utf8(trimmed(s@)), at) ==> is_char_boundary(
                        encode_utf8(s@),
                        at,
                    ) && part.spec_bytes() == encode_utf8(s@).subrange(0, at)
                &&& (forall|at: int| !first_space(encode_utf8(trimmed(s@)), at)) ==> part@ == s@
            },
            None => exists|at: int|
                first_space(encode_utf8(trimmed(s@)), at) && !is_char_boundary(
                    encode_utf8(s@),
                    at,
                ),
        },
{
    let bytes = s.as_str().trim().as_bytes();
    let mut i: usize = 0;
    while i < bytes.len()
        invariant
            i <= bytes.len(),
            bytes@ == encode_utf8(trimmed(s@)),
            forall|j: int| 0 <= j < i ==> bytes@[j] != 0x20,
        decreases bytes.len() - i,
    {
        if bytes[i] == 0x20 {
            proof {
                assert(first_space(bytes@, i as int));
                assert forall|at: int| first_space(bytes@, at) implies at == i by {
                    if at < i {
                        assert(bytes@[at] != 0x20);
                    }
                }
            }
            if s.as_str().is_char_boundary(i) {
                return Some(first_word(s));
            } else {
                return None;
            }
        }
        i += 1;
    }
    proof {
        assert forall|at: int| !first_space(bytes@, at) by {
            if first_space(bytes@, at) {
                assert(bytes@[at] != 0x20);
            }
        }
    }
    Some(first_word(s))
}

} // verus!
