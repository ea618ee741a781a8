use wcrust::{Count, Failure, Input, InputItem, RunResult, WhatToCount};

fn text(label: &str, content: &str) -> Input {
    Input { label: String::from(label), content: Ok(String::from(content)) }
}

fn failed(label: &str, failure: Failure) -> Input {
    Input { label: String::from(label), content: Err(failure) }
}

#[test]
fn new_count_holds_nothing() {
    assert_eq!(Count::new(), Count { lines: None, words: None, chars: None, bytes: None });
}

#[test]
fn zeros_hold_zero_for_active_metrics() {
    assert_eq!(
        Count::zeros(&WhatToCount::default()),
        Count { lines: Some(0), words: Some(0), chars: Some(0), bytes: None }
    );
    let bytes_only = WhatToCount { lines: false, words: false, chars: false, bytes: true };
    assert_eq!(
        Count::zeros(&bytes_only),
        Count { lines: None, words: None, chars: None, bytes: Some(0) }
    );
}

#[test]
fn add_sums_active_metrics_only() {
    let wtc = WhatToCount { lines: true, words: false, chars: true, bytes: false };
    let mut total = Count { lines: Some(1), words: Some(10), chars: Some(100), bytes: Some(1000) };
    let other = Count { lines: Some(2), words: Some(20), chars: Some(200), bytes: Some(2000) };
    total.add(&other, &wtc);
    assert_eq!(
        total,
        Count { lines: Some(3), words: Some(10), chars: Some(300), bytes: Some(1000) }
    );
}

#[test]
fn add_skips_absent_fields() {
    let wtc = WhatToCount { lines: true, words: true, chars: true, bytes: true };
    let mut total = Count::zeros(&wtc);
    let other = Count { lines: Some(4), words: None, chars: Some(9), bytes: None };
    total.add(&other, &wtc);
    assert_eq!(total, Count { lines: Some(4), words: Some(0), chars: Some(9), bytes: Some(0) });
    let mut empty = Count::new();
    empty.add(&other, &wtc);
    assert_eq!(empty, other);
}

#[test]
fn add_takes_large_values() {
    let wtc = WhatToCount::default();
    let big = u64::MAX as u128;
    let mut total = Count { lines: Some(big), words: Some(big), chars: Some(big), bytes: None };
    let again = total;
    total.add(&again, &wtc);
    assert_eq!(
        total,
        Count { lines: Some(2 * big), words: Some(2 * big), chars: Some(2 * big), bytes: None }
    );
}

#[test]
fn max_w_is_one_more_than_the_digits_of_the_largest() {
    assert_eq!(Count::new().max_w(), 2);
    assert_eq!(Count::zeros(&WhatToCount::default()).max_w(), 2);
    assert_eq!(Count { lines: Some(9), words: Some(9), chars: Some(9), bytes: None }.max_w(), 2);
    assert_eq!(Count { lines: Some(2), words: Some(5), chars: Some(10), bytes: None }.max_w(), 3);
    assert_eq!(Count { lines: Some(99), words: Some(100), chars: None, bytes: None }.max_w(), 4);
    assert_eq!(Count { lines: Some(12345), words: None, chars: None, bytes: Some(7) }.max_w(), 6);
    assert_eq!(
        Count { lines: None, words: None, chars: None, bytes: Some(u128::MAX) }.max_w(),
        40
    );
}

#[test]
fn run_keeps_the_order_of_the_inputs() {
    let inputs = vec![text("b", "two words\n"), failed("a", Failure::NotFound), text("c", "")];
    let run = RunResult::run(inputs, WhatToCount::default());
    let items = run.items();
    assert_eq!(items.len(), 3);
    assert_eq!(
        items[0],
        InputItem {
            label: String::from("b"),
            outcome: Ok(Count { lines: Some(1), words: Some(2), chars: Some(10), bytes: None }),
        }
    );
    assert_eq!(
        items[1],
        InputItem { label: String::from("a"), outcome: Err(Failure::NotFound) }
    );
    assert_eq!(
        items[2],
        InputItem {
            label: String::from("c"),
            outcome: Ok(Count { lines: Some(0), words: Some(0), chars: Some(0), bytes: None }),
        }
    );
    assert_eq!(run.metrics(), WhatToCount::default());
}

#[test]
fn totals_are_the_sums_over_successful_items() {
    let inputs = vec![
        text("one", "a b c\nd e\n"),
        failed("gone", Failure::NotFound),
        text("two", "x\n"),
        failed("dir", Failure::IsDirectory),
        text("three", "no newline"),
    ];
    let run = RunResult::run(inputs, WhatToCount::default());
    assert_eq!(
        run.totals(),
        Count { lines: Some(4), words: Some(8), chars: Some(22), bytes: None }
    );
}

#[test]
fn totals_do_not_depend_on_the_order() {
    let wtc = WhatToCount { lines: true, words: true, chars: true, bytes: true };
    let contents = ["a b c\nd e\n", "x\n", "h\u{e9}llo w\u{f6}rld", ""];
    let orders = [[0, 1, 2, 3], [3, 2, 1, 0], [1, 3, 0, 2], [2, 0, 3, 1]];
    let expected = Count { lines: Some(4), words: Some(8), chars: Some(23), bytes: Some(25) };
    for order in orders {
        let mut inputs = Vec::new();
        for i in order {
            inputs.push(text("f", contents[i]));
        }
        inputs.insert(1, failed("missing", Failure::NotFound));
        assert_eq!(RunResult::run(inputs, wtc).totals(), expected);
    }
}

#[test]
fn totals_hold_active_metrics_only() {
    let words_only = WhatToCount { lines: false, words: true, chars: false, bytes: false };
    let run = RunResult::run(vec![text("a", "one two\n"), text("b", "three\n")], words_only);
    assert_eq!(run.totals(), Count { lines: None, words: Some(3), chars: None, bytes: None });
}

#[test]
fn a_failure_adds_nothing_to_the_totals() {
    let run = RunResult::new(WhatToCount::default()).record(text("a", "x\n"));
    let before = run.totals();
    let run = run.record(failed("b", Failure::ReadError(String::from("bad data"))));
    assert_eq!(run.totals(), before);
    assert_eq!(run.items().len(), 2);
}

#[test]
fn record_by_record_equals_run() {
    let wtc = WhatToCount::default();
    let step = RunResult::new(wtc)
        .record(text("a", "1 2 3\n"))
        .record(failed("b", Failure::IsDirectory))
        .record(text("c", "4\n5\n"));
    let whole = RunResult::run(
        vec![text("a", "1 2 3\n"), failed("b", Failure::IsDirectory), text("c", "4\n5\n")],
        wtc,
    );
    assert_eq!(step.items(), whole.items());
    assert_eq!(step.totals(), whole.totals());
    assert_eq!(step.rows(), whole.rows());
}

#[test]
fn exit_status_is_one_when_an_input_failed() {
    let wtc = WhatToCount::default();
    assert_eq!(RunResult::new(wtc).exit_status(), 0);
    assert_eq!(RunResult::run(vec![text("a", "x")], wtc).exit_status(), 0);
    assert_eq!(RunResult::run(vec![text("a", "x"), text("b", "y")], wtc).exit_status(), 0);
    assert_eq!(RunResult::run(vec![failed("a", Failure::NotFound)], wtc).exit_status(), 1);
    assert_eq!(
        RunResult::run(vec![text("a", "x"), failed("b", Failure::IsDirectory)], wtc).exit_status(),
        1
    );
    assert_eq!(
        RunResult::run(
            vec![failed("b", Failure::ReadError(String::from("e"))), text("a", "x")],
            wtc
        )
        .exit_status(),
        1
    );
}
