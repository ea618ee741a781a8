//! Lines: the segments of a text that its line feeds end.

use vstd::prelude::*;
use crate::chars::char_bound;

verus! {

/// The number of line feeds among the first `n` characters of `s`.
pub open spec fn newlines(s: Seq<char>, n: nat) -> nat
    decreases n,
{
    if n == 0 {
        0
    } else {
        newlines(s, (n - 1) as nat) + if s[n - 1] == '\n' {
            1nat
        } else {
            0nat
        }
    }
}

/// Whether `s` ends in a segment that no line feed terminates.
pub open spec fn has_open_line(s: Seq<char>) -> bool {
    s.len() > 0 && s.last() != '\n'
}

/// The number of lines of `s`: one for each line feed, and one more for
/// what follows the last line feed, unless nothing follows it.
pub open spec fn line_count(s: Seq<char>) -> nat {
    newlines(s, s.len()) + if has_open_line(s) {
        1nat
    } else {
        0nat
    }
}

/// The number of characters of `s` before its first line feed, or the length
/// of `s` where it holds none.
pub open spec fn line_len(s: Seq<char>) -> nat
    decreases s.len(),
{
    if s.len() == 0 || s[0] == '\n' {
        0
    } else {
        1 + line_len(s.drop_first())
    }
}

/// A segment without the carriage return that may stand before its line
/// feed.
pub open spec fn strip_carriage_return(line: Seq<char>) -> Seq<char> {
    if line.len() > 0 && line.last() == '\r' {
        line.drop_last()
    } else {
        line
    }
}

/// The lines of `s` in order. A line ends at a line feed, which is not part
/// of it, nor is a carriage return right before that line feed. What
/// follows the last line feed is a line too, unless it is empty.
pub open spec fn split_lines(s: Seq<char>) -> Seq<Seq<char>>
    decreases s.len(),
{
    if s.len() == 0 {
        Seq::empty()
    } else if line_len(s) >= s.len() {
        seq![s]
    } else {
        seq![strip_carriage_return(s.take(line_len(s) as int))] + split_lines(
            s.skip(line_len(s) as int + 1),
        )
    }
}

/// The first line of `s` lies within `s`, holds no line feed, and ends at a
/// line feed or at the end of `s`.
pub proof fn lemma_line_len(s: Seq<char>)
    ensures
        line_len(s) <= s.len(),
        forall|i: int| 0 <= i < line_len(s) ==> #[trigger] s[i] != '\n',
        line_len(s) < s.len() ==> s[line_len(s) as int] == '\n',
    decreases s.len(),
{
    if s.len() > 0 && s[0] != '\n' {
        let t = s.drop_first();
        lemma_line_len(t);
        assert forall|i: int| 0 <= i < line_len(s) implies #[trigger] s[i] != '\n' by {
            if i > 0 {
                assert(s[i] == t[i - 1]);
            }
        }
        if line_len(s) < s.len() {
            assert(s[line_len(s) as int] == t[line_len(t) as int]);
        }
    }
}

/// Counting line feeds can be cut at any place.
proof fn lemma_newlines_skip(s: Seq<char>, k: int, m: nat)
    requires
        0 <= k,
        k + m <= s.len(),
    ensures
        newlines(s, (k + m) as nat) == newlines(s, k as nat) + newlines(s.skip(k), m),
    decreases m,
{
    if m > 0 {
        lemma_newlines_skip(s, k, (m - 1) as nat);
        assert(s.skip(k)[m - 1] == s[k + m - 1]);
    }
}

/// A stretch without line feeds holds none.
proof fn lemma_newlines_none(s: Seq<char>, n: nat)
    requires
        n <= s.len(),
        forall|i: int| 0 <= i < n ==> #[trigger] s[i] != '\n',
    ensures
        newlines(s, n) == 0,
    decreases n,
{
    if n > 0 {
        lemma_newlines_none(s, (n - 1) as nat);
    }
}

/// The number of lines of a text is the number of its line segments, what
/// follows the last line feed counted where it is not empty.
pub proof fn lemma_line_count_is_split_len(s: Seq<char>)
    ensures
        line_count(s) == split_lines(s).len(),
    decreases s.len(),
{
    if s.len() > 0 {
        let n = line_len(s);
        lemma_line_len(s);
        lemma_newlines_none(s, n);
        if n < s.len() {
            let t = s.skip(n as int + 1);
            lemma_line_count_is_split_len(t);
            lemma_newlines_skip(s, n as int + 1, t.len());
            if t.len() > 0 {
                assert(t.last() == s.last());
            }
        }
    }
}

/// No piece of [`split_lines`] holds a line feed.
pub proof fn lemma_split_lines_pieces(s: Seq<char>, j: int)
    requires
        0 <= j < split_lines(s).len(),
    ensures
        forall|i: int| 0 <= i < split_lines(s)[j].len() ==> #[trigger] split_lines(s)[j][i] != '\n',
    decreases s.len(),
{
    if s.len() > 0 {
        lemma_line_len(s);
        if line_len(s) < s.len() && j > 0 {
            lemma_split_lines_pieces(s.skip(line_len(s) as int + 1), j - 1);
        }
    }
}

/// Counts the lines of `text`.
pub fn count_lines(text: &str) -> (n: usize)
    ensures
        n == line_count(text@),
        n == split_lines(text@).len(),
{
    proof {
        lemma_line_count_is_split_len(text@);
    }
    let bound: usize = char_bound(text);
    let mut n: usize = 0;
    let mut open_line: bool = false;
    for c in it: text.chars()
        invariant
            it.seq() == text@,
            text@.len() <= bound,
            n == newlines(text@, it.index() as nat),
            n <= it.index(),
            open_line ==> n < it.index(),
            open_line == (it.index() > 0 && text@[it.index() - 1] != '\n'),
    {
        if c == '\n' {
            n = n + 1;
            open_line = false;
        } else {
            open_line = true;
        }
    }
    if open_line {
        n = n + 1;
    }
    n
}

} // verus!
