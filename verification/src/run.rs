//! A run: the inputs in their order, each with its outcome, and the totals
//! over those that were counted.

use vstd::prelude::*;
use crate::count::{column_width, lemma_column_width_takes, value_of, zero_counts, Count};
use crate::decimal::{decimal, digit_count};
use crate::item::{error_line, error_line_of, item_of, Input, InputItem, ItemView};
use crate::metrics::{Metric, WhatToCount};
use crate::render::{active_count, column, lemma_row_len, render, row, spaces};
use crate::totals::{
    any_failed, lemma_total_of_bound, lemma_total_of_push, lemma_total_of_remove,
    lemma_totals_of_none, lemma_width_takes_items, share, shown, total_of, totals_of,
};

verus! {

/// The items as plain values.
pub open spec fn item_views(items: Seq<InputItem>) -> Seq<ItemView> {
    items.map_values(|item: InputItem| item@)
}

/// The texts of the strings.
pub open spec fn texts(lines: Seq<String>) -> Seq<Seq<char>> {
    lines.map_values(|line: String| line@)
}

/// A run as plain values: its items in the order of the inputs, and its
/// metrics. The totals are a function of both, [`totals_of`].
pub struct RunView {
    pub items: Seq<ItemView>,
    pub metrics: WhatToCount,
}

impl RunView {
    /// The totals of the run.
    pub open spec fn totals(self) -> Map<Metric, nat> {
        totals_of(self.items, self.metrics)
    }

    /// The width of the columns of every row of the run.
    pub open spec fn width(self) -> nat {
        column_width(self.totals())
    }

    /// The row of item `i`.
    pub open spec fn item_row(self, i: int) -> Seq<char> {
        row(shown(self.items[i], self.metrics), self.metrics, self.width(), self.items[i].label)
    }

    /// The row of the totals.
    pub open spec fn totals_row(self) -> Seq<char> {
        row(self.totals(), self.metrics, self.width(), "total"@)
    }

    /// The rows of the run: one for each item in order, and after them
    /// the row of the totals where the run has more than one item.
    pub open spec fn rows(self) -> Seq<Seq<char>> {
        let item_rows = Seq::new(self.items.len(), |i: int| self.item_row(i));
        if self.items.len() > 1 {
            item_rows.push(self.totals_row())
        } else {
            item_rows
        }
    }

    /// The status with which the run ends: 1 where an item failed, else 0.
    pub open spec fn exit_status(self) -> int {
        if any_failed(self.items) {
            1
        } else {
            0
        }
    }
}

/// The error lines of the first `n` items: one for each that failed, in
/// order.
pub open spec fn error_lines_of(program: Seq<char>, items: Seq<ItemView>, n: nat) -> Seq<Seq<char>>
    decreases n,
{
    if n == 0 {
        Seq::empty()
    } else {
        let before = error_lines_of(program, items, (n - 1) as nat);
        match items[n - 1].outcome {
            Ok(_) => before,
            Err(failure) => before.push(error_line_of(program, items[n - 1].label, failure)),
        }
    }
}

/// The items that the inputs become, in their order.
pub open spec fn items_of(inputs: Seq<Input>, m: WhatToCount) -> Seq<ItemView> {
    Seq::new(inputs.len(), |i: int| item_of(inputs[i]@, m))
}

/// The result of a run over some inputs.
pub struct RunResult {
    items: Vec<InputItem>,
    totals: Count,
    metrics: WhatToCount,
}

impl View for RunResult {
    type V = RunView;

    closed spec fn view(&self) -> RunView {
        RunView { items: item_views(self.items@), metrics: self.metrics }
    }
}

impl RunResult {
    #[verifier::type_invariant]
    spec fn well_formed(self) -> bool {
        &&& self.totals@ == totals_of(item_views(self.items@), self.metrics)
        &&& forall|i: int| 0 <= i < self.items@.len() ==> (#[trigger] self.items@[i]).bounded()
    }

    /// A run under the metrics `wtc` that has seen no input yet.
    pub fn new(wtc: WhatToCount) -> (run: RunResult)
        ensures
            run@.items == Seq::<ItemView>::empty(),
            run@.metrics == wtc,
    {
        let items: Vec<InputItem> = Vec::new();
        let totals = Count::zeros(&wtc);
        proof {
            assert(item_views(items@) =~= Seq::<ItemView>::empty());
            lemma_totals_of_none(wtc);
        }
        RunResult { items, totals, metrics: wtc }
    }

    /// Takes the next input into the run: counts its text and adds the
    /// counts to the totals, or keeps its failure, which adds nothing.
    pub fn record(self, input: Input) -> (next: RunResult)
        ensures
            next@.metrics == self@.metrics,
            next@.items == self@.items.push(item_of(input@, self@.metrics)),
    {
        proof {
            use_type_invariant(&self);
        }
        let RunResult { mut items, mut totals, metrics } = self;
        let ghost before = item_views(items@);
        let item = InputItem::from_input(input, &metrics);
        match &item.outcome {
            Ok(count) => {
                proof {
                    assert forall|k: Metric|
                        metrics.has(k) && #[trigger] count@.contains_key(k) implies value_of(
                        totals@,
                        k,
                    ) + count@[k] <= u128::MAX by {
                        lemma_items_bound(items@, k);
                        assert(items@.len() == items.len());
                        assert(value_of(count@, k) <= usize::MAX);
                        lemma_room(total_of(before, k), items@.len(), count@[k]);
                    }
                }
                totals.add(count, &metrics);
            },
            Err(_) => {},
        }
        items.push(item);
        proof {
            assert(item_views(items@) =~= before.push(item@));
            assert forall|k: Metric| metrics.has(k) implies value_of(totals@, k) == total_of(
                item_views(items@),
                k,
            ) by {
                lemma_total_of_push(before, item@, k);
            }
            assert(totals@ =~= totals_of(item_views(items@), metrics));
        }
        RunResult { items, totals, metrics }
    }

    /// Runs over the inputs in their order under the metrics `wtc`.
    pub fn run(inputs: Vec<Input>, wtc: WhatToCount) -> (result: RunResult)
        ensures
            result@.metrics == wtc,
            result@.items == items_of(inputs@, wtc),
    {
        let mut result = RunResult::new(wtc);
        for input in it: inputs.into_iter()
            invariant
                it.seq() == inputs@,
                result@.metrics == wtc,
                result@.items == items_of(inputs@.take(it.index()), wtc),
        {
            let ghost i = it.index();
            result = result.record(input);
            proof {
                assert(result@.items =~= items_of(inputs@.take(i + 1), wtc));
            }
        }
        proof {
            assert(inputs@.take(inputs@.len() as int) =~= inputs@);
        }
        result
    }

    /// The metrics of the run.
    pub fn metrics(&self) -> (wtc: WhatToCount)
        ensures
            wtc == self@.metrics,
    {
        self.metrics
    }

    /// The items of the run, in the order of the inputs.
    pub fn items(&self) -> (items: &Vec<InputItem>)
        ensures
            item_views(items@) == self@.items,
    {
        &self.items
    }

    /// The totals of the run.
    pub fn totals(&self) -> (totals: Count)
        ensures
            totals@ == self@.totals(),
    {
        proof {
            use_type_invariant(self);
        }
        self.totals
    }

    /// The status with which the run ends: 1 where an input failed, else 0.
    pub fn exit_status(&self) -> (status: i32)
        ensures
            status == self@.exit_status(),
    {
        let mut i: usize = 0;
        while i < self.items.len()
            invariant
                i <= self.items@.len(),
                forall|j: int| 0 <= j < i ==> (#[trigger] self@.items[j]).outcome is Ok,
                self@.items == item_views(self.items@),
            decreases self.items@.len() - i,
        {
            if self.items[i].outcome.is_err() {
                assert(self@.items[i as int].outcome is Err);
                return 1;
            }
            i = i + 1;
        }
        0
    }

    /// Renders the rows of the run: one for each item in order, a failed
    /// one with zeros in its columns, and after them the row of the totals
    /// where the run has more than one item. Every column has the width
    /// that the totals ask for.
    pub fn rows(&self) -> (rows: Vec<String>)
        ensures
            texts(rows@) == self@.rows(),
    {
        proof {
            use_type_invariant(self);
        }
        let width = self.totals.max_w();
        let zeros = Count::zeros(&self.metrics);
        let mut rows: Vec<String> = Vec::new();
        let mut i: usize = 0;
        while i < self.items.len()
            invariant
                i <= self.items@.len(),
                self@.items == item_views(self.items@),
                self@.metrics == self.metrics,
                width == self@.width(),
                zeros@ == zero_counts(self.metrics),
                texts(rows@) == Seq::new(i as nat, |j: int| self@.item_row(j)),
            decreases self.items@.len() - i,
        {
            let item = &self.items[i];
            let line = match &item.outcome {
                Ok(count) => render(count, &self.metrics, width, item.label.as_str()),
                Err(_) => render(&zeros, &self.metrics, width, item.label.as_str()),
            };
            assert(line@ == self@.item_row(i as int));
            let ghost before = texts(rows@);
            rows.push(line);
            i = i + 1;
            assert(texts(rows@) =~= before.push(line@));
            assert(texts(rows@) =~= Seq::new(i as nat, |j: int| self@.item_row(j)));
        }
        if self.items.len() > 1 {
            let line = render(&self.totals, &self.metrics, width, "total");
            let ghost before = texts(rows@);
            rows.push(line);
            assert(texts(rows@) =~= before.push(line@));
        }
        rows
    }

    /// Renders the lines that report the failed inputs on the error channel
    /// of `program`, in the order of the inputs.
    pub fn error_lines(&self, program: &str) -> (lines: Vec<String>)
        ensures
            texts(lines@) == error_lines_of(program@, self@.items, self@.items.len()),
    {
        let mut lines: Vec<String> = Vec::new();
        let mut i: usize = 0;
        assert(texts(lines@) =~= error_lines_of(program@, self@.items, 0));
        while i < self.items.len()
            invariant
                i <= self.items@.len(),
                self@.items == item_views(self.items@),
                texts(lines@) == error_lines_of(program@, self@.items, i as nat),
            decreases self.items@.len() - i,
        {
            let item = &self.items[i];
            match &item.outcome {
                Ok(_) => {},
                Err(failure) => {
                    let line = error_line(program, item.label.as_str(), failure);
                    let ghost before = texts(lines@);
                    lines.push(line);
                    assert(texts(lines@) =~= before.push(line@));
                },
            }
            i = i + 1;
        }
        lines
    }
}

/// Every row of a run has the same shape: one column of the width of the
/// run for each active metric, a space and the label. No value is cut and
/// none pushes its column wider.
pub proof fn lemma_rows_aligned(run: RunView, i: int)
    requires
        0 <= i < run.items.len(),
    ensures
        run.item_row(i).len() == active_count(run.metrics) * run.width() + 1
            + run.items[i].label.len(),
        run.totals_row().len() == active_count(run.metrics) * run.width() + 1 + "total"@.len(),
{
    let m = run.metrics;
    assert forall|k: Metric| m.has(k) implies digit_count(
        #[trigger] value_of(shown(run.items[i], m), k),
    ) <= run.width() by {
        lemma_width_takes_items(run.items, m, i, k);
    }
    lemma_row_len(shown(run.items[i], m), m, run.width(), run.items[i].label);
    assert forall|k: Metric| m.has(k) implies digit_count(#[trigger] value_of(run.totals(), k))
        <= run.width() by {
        lemma_column_width_takes(run.totals(), k);
    }
    lemma_row_len(run.totals(), m, run.width(), "total"@);
}

/// An input that failed adds nothing to the totals, and its row is the row
/// of zeros, in columns of the same width as all other rows of the run.
pub proof fn lemma_failed_item(run: RunView, i: int)
    requires
        0 <= i < run.items.len(),
        run.items[i].outcome is Err,
    ensures
        forall|k: Metric| share(run.items[i], k) == 0,
        totals_of(run.items.remove(i), run.metrics) == run.totals(),
        run.item_row(i) == row(
            zero_counts(run.metrics),
            run.metrics,
            run.width(),
            run.items[i].label,
        ),
        forall|k: Metric|
            run.metrics.has(k) ==> #[trigger] column(
                zero_counts(run.metrics),
                run.metrics,
                k,
                run.width(),
            ) == spaces((run.width() - 1) as nat).push('0'),
{
    let m = run.metrics;
    assert forall|k: Metric| total_of(run.items.remove(i), k) == total_of(run.items, k) by {
        lemma_total_of_remove(run.items, i, k);
    }
    assert(totals_of(run.items.remove(i), m) =~= run.totals());
    assert forall|k: Metric| m.has(k) implies #[trigger] column(zero_counts(m), m, k, run.width())
        == spaces((run.width() - 1) as nat).push('0') by {
        assert(decimal(0) =~= seq!['0']);
        assert(column(zero_counts(m), m, k, run.width()) =~= spaces((run.width() - 1) as nat).push(
            '0',
        ));
    }
}

/// Each total of bounded items lies within the number of items times the
/// largest value of a text.
proof fn lemma_items_bound(items: Seq<InputItem>, k: Metric)
    requires
        forall|i: int| 0 <= i < items.len() ==> (#[trigger] items[i]).bounded(),
    ensures
        total_of(item_views(items), k) <= items.len() * usize::MAX,
{
    let views = item_views(items);
    assert forall|i: int| 0 <= i < views.len() implies share(#[trigger] views[i], k)
        <= usize::MAX by {
        assert(items[i].bounded());
        match items[i].outcome {
            Ok(count) => {
                assert(value_of(count@, k) <= usize::MAX);
            },
            Err(_) => {},
        }
    }
    lemma_total_of_bound(views, k, usize::MAX as nat);
}

/// The fields of a count have room for the total of as many texts as a
/// vector can hold, and one more.
proof fn lemma_room(total: nat, len: nat, value: nat)
    requires
        len <= usize::MAX,
        value <= usize::MAX,
        total <= len * usize::MAX,
    ensures
        total + value <= u128::MAX,
{
    assert(len * usize::MAX <= 0xffff_ffff_ffff_ffff * 0xffff_ffff_ffff_ffff) by (nonlinear_arith)
        requires
            len <= 0xffff_ffff_ffff_ffff,
            usize::MAX <= 0xffff_ffff_ffff_ffff,
    ;
}

} // verus!
