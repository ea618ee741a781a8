//! Rows of right-aligned columns, one column for each active metric.

use vstd::prelude::*;
use crate::count::{number, number_of, value_of, Count};
use crate::decimal::{count_digits, decimal, digit_count, lemma_decimal_len, push_decimal};
use crate::metrics::{Metric, WhatToCount};

verus! {

/// A run of `n` spaces.
pub open spec fn spaces(n: nat) -> Seq<char> {
    Seq::new(n, |i: int| ' ')
}

/// `text` moved to the right edge of a column of `width` characters: spaces
/// fill the column on the left. A text wider than the column is kept whole.
pub open spec fn right_aligned(text: Seq<char>, width: nat) -> Seq<char> {
    if text.len() >= width {
        text
    } else {
        spaces((width - text.len()) as nat) + text
    }
}

/// The column of metric `k` in a row: the value of `c`, or zero where `c`
/// holds none, right-aligned; nothing at all where `m` does not select `k`.
pub open spec fn column(c: Map<Metric, nat>, m: WhatToCount, k: Metric, width: nat) -> Seq<char> {
    if m.has(k) {
        right_aligned(decimal(value_of(c, k)), width)
    } else {
        Seq::empty()
    }
}

/// The row that reports `c` under the metrics `m`: the columns of the
/// active metrics in the order lines, words, characters, bytes, then a
/// space and the label.
pub open spec fn row(c: Map<Metric, nat>, m: WhatToCount, width: nat, label: Seq<char>) -> Seq<
    char,
> {
    column(c, m, Metric::Lines, width) + column(c, m, Metric::Words, width) + column(
        c,
        m,
        Metric::Chars,
        width,
    ) + column(c, m, Metric::Bytes, width) + seq![' '] + label
}

/// One for a metric that is active, zero for one that is not.
pub open spec fn one_if(active: bool) -> nat {
    if active {
        1
    } else {
        0
    }
}

/// The number of metrics that `m` selects.
pub open spec fn active_count(m: WhatToCount) -> nat {
    one_if(m.lines) + one_if(m.words) + one_if(m.chars) + one_if(m.bytes)
}

/// Appends `n` spaces to `out`.
fn push_spaces(out: &mut String, n: usize)
    ensures
        final(out)@ == old(out)@ + spaces(n as nat),
{
    proof {
        reveal_strlit(" ");
    }
    let mut i: usize = 0;
    assert(out@ =~= old(out)@ + spaces(0));
    while i < n
        invariant
            i <= n,
            out@ == old(out)@ + spaces(i as nat),
            " "@ == seq![' '],
        decreases n - i,
    {
        out.append(" ");
        i = i + 1;
        assert(out@ =~= old(out)@ + spaces(i as nat));
    }
}

/// Appends the column of one active metric to `out`.
fn push_column(out: &mut String, field: Option<u128>, width: usize)
    ensures
        final(out)@ == old(out)@ + right_aligned(decimal(number_of(field)), width as nat),
{
    let n = number(field);
    let len = count_digits(n);
    proof {
        lemma_decimal_len(n as nat);
    }
    if len < width {
        push_spaces(out, width - len);
    }
    push_decimal(out, n);
    assert(out@ =~= old(out)@ + right_aligned(decimal(number_of(field)), width as nat));
}

/// Renders the row of `count` under the metrics of `wtc`, in columns of
/// `width` characters, with `label` at its end.
pub fn render(count: &Count, wtc: &WhatToCount, width: usize, label: &str) -> (line: String)
    ensures
        line@ == row(count@, *wtc, width as nat, label@),
{
    proof {
        reveal_strlit(" ");
    }
    let mut line = String::new();
    if wtc.lines {
        push_column(&mut line, count.lines, width);
    }
    if wtc.words {
        push_column(&mut line, count.words, width);
    }
    if wtc.chars {
        push_column(&mut line, count.chars, width);
    }
    if wtc.bytes {
        push_column(&mut line, count.bytes, width);
    }
    line.append(" ");
    line.append(label);
    assert(line@ =~= row(count@, *wtc, width as nat, label@));
    line
}

/// A column is as wide as asked for wherever the value fits: a row then
/// holds one column of that width for each active metric, a space and the
/// label, and nothing else.
pub proof fn lemma_row_len(c: Map<Metric, nat>, m: WhatToCount, width: nat, label: Seq<char>)
    requires
        forall|k: Metric| m.has(k) ==> digit_count(#[trigger] value_of(c, k)) <= width,
    ensures
        forall|k: Metric| m.has(k) ==> (#[trigger] column(c, m, k, width)).len() == width,
        forall|k: Metric| !m.has(k) ==> (#[trigger] column(c, m, k, width)).len() == 0,
        row(c, m, width, label).len() == active_count(m) * width + 1 + label.len(),
{
    assert forall|k: Metric| m.has(k) implies (#[trigger] column(c, m, k, width)).len()
        == width by {
        lemma_decimal_len(value_of(c, k));
        assert(digit_count(value_of(c, k)) <= width);
    }
    assert(column(c, m, Metric::Lines, width).len() == one_if(m.lines) * width);
    assert(column(c, m, Metric::Words, width).len() == one_if(m.words) * width);
    assert(column(c, m, Metric::Chars, width).len() == one_if(m.chars) * width);
    assert(column(c, m, Metric::Bytes, width).len() == one_if(m.bytes) * width);
    assert(active_count(m) * width == one_if(m.lines) * width + one_if(m.words) * width + one_if(
        m.chars,
    ) * width + one_if(m.bytes) * width) by (nonlinear_arith)
        requires
            active_count(m) == one_if(m.lines) + one_if(m.words) + one_if(m.chars) + one_if(
                m.bytes,
            ),
    ;
}

/// With words as the only active metric a row holds the word count, the
/// space and the label: no column of lines, characters or bytes.
pub proof fn lemma_row_words_only(
    c: Map<Metric, nat>,
    m: WhatToCount,
    width: nat,
    label: Seq<char>,
)
    requires
        m.words,
        !m.lines,
        !m.chars,
        !m.bytes,
    ensures
        row(c, m, width, label) == right_aligned(decimal(value_of(c, Metric::Words)), width)
            + seq![' '] + label,
{
    assert(row(c, m, width, label) =~= right_aligned(decimal(value_of(c, Metric::Words)), width)
        + seq![' '] + label);
}

} // verus!
