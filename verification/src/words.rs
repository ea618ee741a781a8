//! Words: the maximal runs of characters that are no whitespace.

use vstd::prelude::*;
use crate::chars::char_bound;

verus! {

/// Whether `c` separates words: the code points that carry Unicode's
/// `White_Space` property.
pub open spec fn is_whitespace(c: char) -> bool {
    let u = c as u32;
    ||| 0x09 <= u <= 0x0D
    ||| u == 0x20
    ||| u == 0x85
    ||| u == 0xA0
    ||| u == 0x1680
    ||| 0x2000 <= u <= 0x200A
    ||| u == 0x2028
    ||| u == 0x2029
    ||| u == 0x202F
    ||| u == 0x205F
    ||| u == 0x3000
}

/// Whether a word begins at index `i` of `s`: a character that is no
/// whitespace, at the start of the text or right after whitespace.
pub open spec fn is_word_start(s: Seq<char>, i: int) -> bool {
    &&& 0 <= i < s.len()
    &&& !is_whitespace(s[i])
    &&& (i == 0 || is_whitespace(s[i - 1]))
}

/// The number of words that begin among the first `n` characters of `s`.
pub open spec fn word_starts(s: Seq<char>, n: nat) -> nat
    decreases n,
{
    if n == 0 {
        0
    } else {
        word_starts(s, (n - 1) as nat) + if is_word_start(s, n - 1) {
            1nat
        } else {
            0nat
        }
    }
}

/// The number of maximal runs of non-whitespace characters in `s`.
pub open spec fn word_count(s: Seq<char>) -> nat {
    word_starts(s, s.len())
}

/// The length of the word at the front of `s`: of its longest prefix that
/// holds no whitespace.
pub open spec fn word_len(s: Seq<char>) -> nat
    decreases s.len(),
{
    if s.len() == 0 || is_whitespace(s[0]) {
        0
    } else {
        1 + word_len(s.drop_first())
    }
}

/// The words of `s` in order: `s` split at its runs of whitespace, with no
/// empty piece kept.
pub open spec fn split_whitespace(s: Seq<char>) -> Seq<Seq<char>>
    decreases s.len(),
{
    if s.len() == 0 {
        Seq::empty()
    } else if is_whitespace(s[0]) {
        split_whitespace(s.drop_first())
    } else {
        proof {
            lemma_word_len(s);
        }
        seq![s.take(word_len(s) as int)] + split_whitespace(s.skip(word_len(s) as int))
    }
}

/// The word at the front of `s` lies within `s`, holds no whitespace, and
/// ends at whitespace or at the end of `s`.
pub proof fn lemma_word_len(s: Seq<char>)
    ensures
        word_len(s) <= s.len(),
        s.len() > 0 && !is_whitespace(s[0]) ==> word_len(s) >= 1,
        forall|i: int| 0 <= i < word_len(s) ==> !is_whitespace(#[trigger] s[i]),
        word_len(s) < s.len() ==> is_whitespace(s[word_len(s) as int]),
    decreases s.len(),
{
    if s.len() > 0 && !is_whitespace(s[0]) {
        let t = s.drop_first();
        lemma_word_len(t);
        assert forall|i: int| 0 <= i < word_len(s) implies !is_whitespace(#[trigger] s[i]) by {
            if i > 0 {
                assert(s[i] == t[i - 1]);
            }
        }
        if word_len(s) < s.len() {
            assert(s[word_len(s) as int] == t[word_len(t) as int]);
        }
    }
}

/// Counting word starts can be cut at `k`, wherever no word runs across `k`.
proof fn lemma_word_starts_skip(s: Seq<char>, k: int, m: nat)
    requires
        1 <= k <= s.len(),
        k + m <= s.len(),
        k == s.len() || is_whitespace(s[k - 1]) || is_whitespace(s[k]),
    ensures
        word_starts(s, (k + m) as nat) == word_starts(s, k as nat) + word_starts(s.skip(k), m),
    decreases m,
{
    if m > 0 {
        lemma_word_starts_skip(s, k, (m - 1) as nat);
        let t = s.skip(k);
        assert(t[m - 1] == s[k + m - 1]);
        if m > 1 {
            assert(t[m - 2] == s[k + m - 2]);
        }
        assert(is_word_start(t, m - 1) == is_word_start(s, k + m - 1));
    }
}

/// A stretch without whitespace at the front of `s` holds one word start.
proof fn lemma_word_starts_in_word(s: Seq<char>, n: nat)
    requires
        1 <= n <= s.len(),
        forall|i: int| 0 <= i < n ==> !is_whitespace(#[trigger] s[i]),
    ensures
        word_starts(s, n) == 1,
    decreases n,
{
    if n > 1 {
        lemma_word_starts_in_word(s, (n - 1) as nat);
    } else {
        assert(word_starts(s, 0) == 0);
    }
}

/// The number of words of a text is the number of pieces that remain when
/// the text is split at its runs of whitespace and the empty pieces are
/// discarded.
pub proof fn lemma_word_count_is_split_len(s: Seq<char>)
    ensures
        word_count(s) == split_whitespace(s).len(),
    decreases s.len(),
{
    if s.len() == 0 {
    } else if is_whitespace(s[0]) {
        let t = s.drop_first();
        assert(t =~= s.skip(1));
        lemma_word_count_is_split_len(t);
        lemma_word_starts_skip(s, 1, t.len());
        assert(word_starts(s, 1) == word_starts(s, 0));
    } else {
        let n = word_len(s);
        lemma_word_len(s);
        let t = s.skip(n as int);
        lemma_word_count_is_split_len(t);
        lemma_word_starts_in_word(s, n);
        lemma_word_starts_skip(s, n as int, t.len());
    }
}

/// Every piece of [`split_whitespace`] is a word: it is not empty and holds
/// no whitespace.
pub proof fn lemma_split_whitespace_pieces(s: Seq<char>, j: int)
    requires
        0 <= j < split_whitespace(s).len(),
    ensures
        split_whitespace(s)[j].len() > 0,
        forall|i: int|
            0 <= i < split_whitespace(s)[j].len() ==> !is_whitespace(
                #[trigger] split_whitespace(s)[j][i],
            ),
    decreases s.len(),
{
    if s.len() == 0 {
    } else if is_whitespace(s[0]) {
        lemma_split_whitespace_pieces(s.drop_first(), j);
    } else {
        lemma_word_len(s);
        if j > 0 {
            lemma_split_whitespace_pieces(s.skip(word_len(s) as int), j - 1);
        }
    }
}

/// Executable form of [`is_whitespace`].
pub fn char_is_whitespace(c: char) -> (b: bool)
    ensures
        b == is_whitespace(c),
{
    let u: u32 = c as u32;
    (0x09 <= u && u <= 0x0D) || u == 0x20 || u == 0x85 || u == 0xA0 || u == 0x1680 || (0x2000 <= u
        && u <= 0x200A) || u == 0x2028 || u == 0x2029 || u == 0x202F || u == 0x205F || u == 0x3000
}

/// Counts the words of `text`.
pub fn count_words(text: &str) -> (n: usize)
    ensures
        n == word_count(text@),
        n == split_whitespace(text@).len(),
{
    proof {
        lemma_word_count_is_split_len(text@);
    }
    let bound: usize = char_bound(text);
    let mut n: usize = 0;
    let mut in_word: bool = false;
    for c in it: text.chars()
        invariant
            it.seq() == text@,
            text@.len() <= bound,
            n == word_starts(text@, it.index() as nat),
            n <= it.index(),
            in_word == (it.index() > 0 && !is_whitespace(text@[it.index() - 1])),
    {
        let ws = char_is_whitespace(c);
        if !ws && !in_word {
            n = n + 1;
        }
        in_word = !ws;
    }
    n
}

} // verus!
