//! The counts of one text, and of several texts together.

use vstd::prelude::*;
use crate::chars::{byte_count, char_count, count_bytes, count_chars};
use crate::decimal::{count_digits, digit_count, lemma_digit_count_monotonic};
use crate::lines::{count_lines, line_count};
use crate::metrics::{Metric, WhatToCount};
use crate::words::{count_words, word_count};

verus! {

/// The value of metric `k` for the text `s`.
pub open spec fn measure(s: Seq<char>, k: Metric) -> nat {
    match k {
        Metric::Lines => line_count(s),
        Metric::Words => word_count(s),
        Metric::Chars => char_count(s),
        Metric::Bytes => byte_count(s),
    }
}

/// The counts of the text `s` under the metrics `m`: a value for each
/// active metric and none for the others.
pub open spec fn counts(s: Seq<char>, m: WhatToCount) -> Map<Metric, nat> {
    Map::new(|k: Metric| m.has(k), |k: Metric| measure(s, k))
}

/// The counts that are zero for each metric of `m`.
pub open spec fn zero_counts(m: WhatToCount) -> Map<Metric, nat> {
    Map::new(|k: Metric| m.has(k), |k: Metric| 0nat)
}

/// The value that `c` holds for `k`, or zero where it holds none.
pub open spec fn value_of(c: Map<Metric, nat>, k: Metric) -> nat {
    if c.contains_key(k) {
        c[k]
    } else {
        0
    }
}

/// The value of a field, zero where it is absent.
pub open spec fn number_of(field: Option<u128>) -> nat {
    match field {
        Some(v) => v as nat,
        None => 0,
    }
}

/// `total` with `c` added to it under the metrics `m`: each value of `c`
/// for an active metric is added to that of `total`; what `c` does not
/// hold, or `m` does not select, is skipped.
pub open spec fn combined(total: Map<Metric, nat>, c: Map<Metric, nat>, m: WhatToCount) -> Map<
    Metric,
    nat,
> {
    Map::new(
        |k: Metric| total.contains_key(k) || (m.has(k) && c.contains_key(k)),
        |k: Metric|
            if m.has(k) && c.contains_key(k) {
                value_of(total, k) + c[k]
            } else {
                total[k]
            },
    )
}

/// The largest value that `c` holds, or zero where it holds none.
pub open spec fn largest(c: Map<Metric, nat>) -> nat {
    let lines = value_of(c, Metric::Lines);
    let words = value_of(c, Metric::Words);
    let chars = value_of(c, Metric::Chars);
    let bytes = value_of(c, Metric::Bytes);
    let a = if lines >= words {
        lines
    } else {
        words
    };
    let b = if chars >= bytes {
        chars
    } else {
        bytes
    };
    if a >= b {
        a
    } else {
        b
    }
}

/// The width of a column that takes every value of `c`: one more than the
/// number of digits of its largest value.
pub open spec fn column_width(c: Map<Metric, nat>) -> nat {
    1 + digit_count(largest(c))
}

/// The counts of a text: a value for each metric that was active when the
/// text was counted, and none for the others.
///
/// The fields are wide enough for the totals of any run: the sum over as
/// many texts as a vector holds, each as long as memory allows, stays
/// within 128 bits.
#[derive(Clone, Copy, Debug, PartialEq, Eq)]
pub struct Count {
    pub lines: Option<u128>,
    pub words: Option<u128>,
    pub chars: Option<u128>,
    pub bytes: Option<u128>,
}

impl View for Count {
    type V = Map<Metric, nat>;

    open spec fn view(&self) -> Map<Metric, nat> {
        Map::new(|k: Metric| self.get(k) is Some, |k: Metric| self.get(k).unwrap() as nat)
    }
}

impl Count {
    /// The field that holds metric `k`.
    pub open spec fn get(self, k: Metric) -> Option<u128> {
        match k {
            Metric::Lines => self.lines,
            Metric::Words => self.words,
            Metric::Chars => self.chars,
            Metric::Bytes => self.bytes,
        }
    }

    /// Whether `other` can be added to this count under `m` without leaving
    /// the range of its fields.
    pub open spec fn can_add(self, other: Count, m: WhatToCount) -> bool {
        forall|k: Metric|
            m.has(k) && #[trigger] other@.contains_key(k) ==> value_of(self@, k) + other@[k]
                <= u128::MAX
    }

    /// A count that holds no value.
    pub fn new() -> (c: Count)
        ensures
            c == (Count { lines: None, words: None, chars: None, bytes: None }),
            c@ == Map::<Metric, nat>::empty(),
    {
        let c = Count { lines: None, words: None, chars: None, bytes: None };
        assert(c@ =~= Map::<Metric, nat>::empty());
        c
    }

    /// The count that is zero for each metric of `wtc`.
    pub fn zeros(wtc: &WhatToCount) -> (c: Count)
        ensures
            c@ == zero_counts(*wtc),
    {
        let mut c = Count::new();
        if wtc.lines {
            c.lines = Some(0);
        }
        if wtc.words {
            c.words = Some(0);
        }
        if wtc.chars {
            c.chars = Some(0);
        }
        if wtc.bytes {
            c.bytes = Some(0);
        }
        assert(c@ =~= zero_counts(*wtc));
        c
    }

    /// Adds `count` to this count, metric by metric, for the metrics of
    /// `wtc`.
    pub fn add(&mut self, count: &Count, wtc: &WhatToCount)
        requires
            old(self).can_add(*count, *wtc),
        ensures
            final(self)@ == combined(old(self)@, count@, *wtc),
    {
        assert(count@.contains_key(Metric::Lines) == (count.lines is Some));
        assert(count@.contains_key(Metric::Words) == (count.words is Some));
        assert(count@.contains_key(Metric::Chars) == (count.chars is Some));
        assert(count@.contains_key(Metric::Bytes) == (count.bytes is Some));
        if wtc.lines {
            self.lines = sum(self.lines, count.lines);
        }
        if wtc.words {
            self.words = sum(self.words, count.words);
        }
        if wtc.chars {
            self.chars = sum(self.chars, count.chars);
        }
        if wtc.bytes {
            self.bytes = sum(self.bytes, count.bytes);
        }
        assert(self@ =~= combined(old(self)@, count@, *wtc));
    }

    /// The width of the columns that take every value of this count.
    pub fn max_w(&self) -> (w: usize)
        ensures
            w == column_width(self@),
            2 <= w <= 40,
    {
        let lines = number(self.lines);
        let words = number(self.words);
        let chars = number(self.chars);
        let bytes = number(self.bytes);
        let a = if lines >= words {
            lines
        } else {
            words
        };
        let b = if chars >= bytes {
            chars
        } else {
            bytes
        };
        let max = if a >= b {
            a
        } else {
            b
        };
        assert(max == largest(self@));
        count_digits(max) + 1
    }
}

/// The value of a field, zero where it is absent.
pub(crate) fn number(field: Option<u128>) -> (n: u128)
    ensures
        n == match field {
            Some(v) => v,
            None => 0,
        },
{
    match field {
        Some(v) => v,
        None => 0,
    }
}

/// A field of a total with a field of a count added to it; an absent field
/// of the count leaves the total as it is.
fn sum(total: Option<u128>, field: Option<u128>) -> (r: Option<u128>)
    requires
        field is Some ==> number_of(total) + field->0 <= u128::MAX,
    ensures
        r == match field {
            Some(v) => Some((number_of(total) + v) as u128),
            None => total,
        },
{
    match field {
        Some(v) => Some(number(total) + v),
        None => total,
    }
}

/// Counts `string` under the metrics of `wtc`.
pub fn count_string(string: String, wtc: &WhatToCount) -> (count: Count)
    ensures
        count@ == counts(string@, *wtc),
        forall|k: Metric| #[trigger] value_of(count@, k) <= usize::MAX,
{
    let text = string.as_str();
    let mut count = Count::new();
    if wtc.lines {
        count.lines = Some(count_lines(text) as u128);
    }
    if wtc.words {
        count.words = Some(count_words(text) as u128);
    }
    if wtc.chars {
        count.chars = Some(count_chars(text) as u128);
    }
    if wtc.bytes {
        count.bytes = Some(count_bytes(text) as u128);
    }
    assert(count@ =~= counts(string@, *wtc));
    count
}

/// The empty text counts zero for every active metric.
pub proof fn lemma_counts_of_empty(m: WhatToCount)
    ensures
        counts(Seq::<char>::empty(), m) == zero_counts(m),
{
    assert(counts(Seq::<char>::empty(), m) =~= zero_counts(m));
}

/// The width that a total asks for leaves room for each of its metrics.
pub proof fn lemma_column_width_takes(c: Map<Metric, nat>, k: Metric)
    ensures
        digit_count(value_of(c, k)) < column_width(c),
{
    lemma_digit_count_monotonic(value_of(c, k), largest(c));
}

} // verus!
