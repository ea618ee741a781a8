//! The totals of a run: the sums of the counts of its successful items.

use vstd::prelude::*;
use vstd::seq_lib::{to_multiset_contains, to_multiset_len, to_multiset_remove};
use crate::count::{column_width, lemma_column_width_takes, value_of, zero_counts};
use crate::decimal::{digit_count, lemma_digit_count_monotonic};
use crate::item::ItemView;
use crate::metrics::{Metric, WhatToCount};

verus! {

/// What an item adds to the total of metric `k`: its value for `k`, nothing
/// where it failed or holds no such value.
pub open spec fn share(item: ItemView, k: Metric) -> nat {
    match item.outcome {
        Ok(count) => value_of(count, k),
        Err(_) => 0,
    }
}

/// The sum of metric `k` over the successful items.
pub open spec fn total_of(items: Seq<ItemView>, k: Metric) -> nat
    decreases items.len(),
{
    if items.len() == 0 {
        0
    } else {
        total_of(items.drop_last(), k) + share(items.last(), k)
    }
}

/// The totals of the items under the metrics `m`: for each active metric
/// the sum over the successful items, and no value for the others.
pub open spec fn totals_of(items: Seq<ItemView>, m: WhatToCount) -> Map<Metric, nat> {
    Map::new(|k: Metric| m.has(k), |k: Metric| total_of(items, k))
}

/// Whether any of the items failed.
pub open spec fn any_failed(items: Seq<ItemView>) -> bool {
    exists|i: int| 0 <= i < items.len() && (#[trigger] items[i]).outcome is Err
}

/// The counts that the row of an item shows: its own, or zeros for each
/// active metric where it failed.
pub open spec fn shown(item: ItemView, m: WhatToCount) -> Map<Metric, nat> {
    match item.outcome {
        Ok(count) => count,
        Err(_) => zero_counts(m),
    }
}

/// Without items every total is zero.
pub proof fn lemma_totals_of_none(m: WhatToCount)
    ensures
        totals_of(Seq::<ItemView>::empty(), m) == zero_counts(m),
{
    assert(totals_of(Seq::<ItemView>::empty(), m) =~= zero_counts(m));
}

/// One more item adds its share to each total.
pub proof fn lemma_total_of_push(items: Seq<ItemView>, item: ItemView, k: Metric)
    ensures
        total_of(items.push(item), k) == total_of(items, k) + share(item, k),
{
    assert(items.push(item).drop_last() =~= items);
}

/// Taking an item out takes its share out of each total.
pub proof fn lemma_total_of_remove(items: Seq<ItemView>, i: int, k: Metric)
    requires
        0 <= i < items.len(),
    ensures
        total_of(items, k) == total_of(items.remove(i), k) + share(items[i], k),
    decreases items.len(),
{
    if i == items.len() - 1 {
        assert(items.remove(i) =~= items.drop_last());
    } else {
        lemma_total_of_remove(items.drop_last(), i, k);
        assert(items.remove(i).drop_last() =~= items.drop_last().remove(i));
        assert(items.remove(i).last() == items.last());
    }
}

/// The total of a metric does not depend on the order of the items.
pub proof fn lemma_total_of_reordered(a: Seq<ItemView>, b: Seq<ItemView>, k: Metric)
    requires
        a.to_multiset() == b.to_multiset(),
    ensures
        total_of(a, k) == total_of(b, k),
    decreases a.len(),
{
    to_multiset_len(a);
    to_multiset_len(b);
    if a.len() > 0 {
        let x = a.last();
        let i = a.len() - 1;
        assert(a.contains(x));
        to_multiset_contains(a, x);
        to_multiset_contains(b, x);
        let j = choose|j: int| 0 <= j < b.len() && b[j] == x;
        to_multiset_remove(a, i);
        to_multiset_remove(b, j);
        lemma_total_of_reordered(a.remove(i), b.remove(j), k);
        lemma_total_of_remove(a, i, k);
        lemma_total_of_remove(b, j, k);
    }
}

/// The totals are the sums, metric by metric, of the counts of the
/// successful items under the active metrics, whatever the order of the
/// items: two runs over the same items in another order have the same
/// totals.
pub proof fn lemma_totals_order_independent(a: Seq<ItemView>, b: Seq<ItemView>, m: WhatToCount)
    requires
        a.to_multiset() == b.to_multiset(),
    ensures
        totals_of(a, m) == totals_of(b, m),
{
    assert forall|k: Metric| total_of(a, k) == total_of(b, k) by {
        lemma_total_of_reordered(a, b, k);
    }
    assert(totals_of(a, m) =~= totals_of(b, m));
}

/// No item has a share larger than the total.
pub proof fn lemma_share_le_total(items: Seq<ItemView>, i: int, k: Metric)
    requires
        0 <= i < items.len(),
    ensures
        share(items[i], k) <= total_of(items, k),
{
    lemma_total_of_remove(items, i, k);
}

/// The width computed from the totals takes every value of every
/// successful item: for each active metric the value has fewer digits than
/// the column has characters.
pub proof fn lemma_width_takes_items(items: Seq<ItemView>, m: WhatToCount, i: int, k: Metric)
    requires
        0 <= i < items.len(),
        m.has(k),
    ensures
        digit_count(share(items[i], k)) < column_width(totals_of(items, m)),
        digit_count(value_of(shown(items[i], m), k)) < column_width(totals_of(items, m)),
{
    let t = totals_of(items, m);
    lemma_share_le_total(items, i, k);
    assert(value_of(t, k) == total_of(items, k));
    lemma_digit_count_monotonic(share(items[i], k), value_of(t, k));
    lemma_column_width_takes(t, k);
    lemma_digit_count_monotonic(0, value_of(t, k));
}

/// An item that failed adds nothing to the totals.
pub proof fn lemma_failure_adds_nothing(items: Seq<ItemView>, item: ItemView, m: WhatToCount)
    requires
        item.outcome is Err,
    ensures
        totals_of(items.push(item), m) == totals_of(items, m),
{
    assert forall|k: Metric| total_of(items.push(item), k) == total_of(items, k) by {
        lemma_total_of_push(items, item, k);
    }
    assert(totals_of(items.push(item), m) =~= totals_of(items, m));
}

/// A bound on each share bounds the total.
pub proof fn lemma_total_of_bound(items: Seq<ItemView>, k: Metric, bound: nat)
    requires
        forall|i: int| 0 <= i < items.len() ==> share(#[trigger] items[i], k) <= bound,
    ensures
        total_of(items, k) <= items.len() * bound,
    decreases items.len(),
{
    if items.len() > 0 {
        let rest = items.drop_last();
        assert forall|i: int| 0 <= i < rest.len() implies share(#[trigger] rest[i], k) <= bound by {
            assert(rest[i] == items[i]);
        }
        lemma_total_of_bound(rest, k, bound);
        assert(share(items.last(), k) <= bound);
        assert(rest.len() * bound + bound == items.len() * bound) by (nonlinear_arith)
            requires
                rest.len() + 1 == items.len(),
        ;
    }
}

} // verus!
