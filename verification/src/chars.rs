//! The characters and the bytes of a text.

use vstd::prelude::*;
use vstd::utf8::encode_utf8;

verus! {

/// The number of characters (Unicode scalar values) of `s`.
pub open spec fn char_count(s: Seq<char>) -> nat {
    s.len()
}

/// The number of bytes that `s` takes when encoded as UTF-8.
pub open spec fn byte_count(s: Seq<char>) -> nat {
    encode_utf8(s).len()
}

/// Every character takes at least one byte and at most four.
pub proof fn lemma_byte_count_bounds(s: Seq<char>)
    ensures
        char_count(s) <= byte_count(s) <= 4 * char_count(s),
    decreases s.len(),
{
    if s.len() > 0 {
        lemma_byte_count_bounds(s.drop_first());
    }
}

/// Counts the bytes of `text`.
pub fn count_bytes(text: &str) -> (n: usize)
    ensures
        n == byte_count(text@),
{
    text.as_bytes().len()
}

/// Counts the characters of `text`.
pub fn count_chars(text: &str) -> (n: usize)
    ensures
        n == char_count(text@),
{
    text.unicode_len()
}

/// The number of bytes of `text`, which its number of characters cannot
/// exceed: a text in memory has at most `usize::MAX` characters.
pub(crate) fn char_bound(text: &str) -> (n: usize)
    ensures
        text@.len() <= n,
{
    proof {
        lemma_byte_count_bounds(text@);
    }
    count_bytes(text)
}

} // verus!
