use wcrust::{error_line, render, Count, Failure, Input, RunResult, WhatToCount};

fn text(label: &str, content: &str) -> Input {
    Input { label: String::from(label), content: Ok(String::from(content)) }
}

fn failed(label: &str, failure: Failure) -> Input {
    Input { label: String::from(label), content: Err(failure) }
}

#[test]
fn render_aligns_columns_to_the_right() {
    let count = Count { lines: Some(2), words: Some(5), chars: Some(10), bytes: None };
    assert_eq!(render(&count, &WhatToCount::default(), 3, "file.txt"), "  2  5 10 file.txt");
    assert_eq!(render(&count, &WhatToCount::default(), 5, "f"), "    2    5   10 f");
}

#[test]
fn render_keeps_the_column_order() {
    let all = WhatToCount { lines: true, words: true, chars: true, bytes: true };
    let count = Count { lines: Some(1), words: Some(22), chars: Some(333), bytes: Some(4444) };
    assert_eq!(render(&count, &all, 5, "x"), "    1   22  333 4444 x");
    let some = WhatToCount { lines: true, words: false, chars: false, bytes: true };
    assert_eq!(render(&count, &some, 5, "x"), "    1 4444 x");
}

#[test]
fn render_keeps_a_value_wider_than_the_column() {
    let count = Count { lines: Some(12345), words: Some(7), chars: None, bytes: None };
    let wtc = WhatToCount { lines: true, words: true, chars: false, bytes: false };
    assert_eq!(render(&count, &wtc, 2, "w"), "12345 7 w");
    assert_eq!(render(&count, &wtc, 0, "w"), "123457 w");
}

#[test]
fn render_shows_zero_for_an_absent_value() {
    assert_eq!(render(&Count::new(), &WhatToCount::default(), 2, "none"), " 0 0 0 none");
    assert_eq!(
        render(&Count::zeros(&WhatToCount::default()), &WhatToCount::default(), 4, ""),
        "   0   0   0 "
    );
}

#[test]
fn render_writes_every_digit() {
    let wtc = WhatToCount { lines: true, words: false, chars: false, bytes: false };
    let count = Count { lines: Some(1234567890), words: None, chars: None, bytes: None };
    assert_eq!(render(&count, &wtc, 11, "d"), " 1234567890 d");
    let count = Count { lines: Some(u128::MAX), words: None, chars: None, bytes: None };
    assert_eq!(
        render(&count, &wtc, 40, "m"),
        " 340282366920938463463374607431768211455 m"
    );
}

#[test]
fn words_only_gives_one_column() {
    let words_only = WhatToCount { lines: false, words: true, chars: false, bytes: false };
    let run = RunResult::run(vec![text("a.txt", "one two three\nfour\n")], words_only);
    assert_eq!(run.rows(), vec![String::from(" 4 a.txt")]);
    let run = RunResult::run(
        vec![text("a", "one two three\nfour\n"), text("b", "five six seven eight nine ten\n")],
        words_only,
    );
    assert_eq!(
        run.rows(),
        vec![String::from("  4 a"), String::from("  6 b"), String::from(" 10 total")]
    );
}

#[test]
fn single_input_has_no_totals_row() {
    let run = RunResult::run(vec![text("in.txt", "a b c\nd e\n")], WhatToCount::default());
    assert_eq!(run.rows(), vec![String::from("  2  5 10 in.txt")]);
    assert_eq!(run.exit_status(), 0);
    assert!(run.error_lines("wcrust").is_empty());
}

#[test]
fn standard_input_has_the_empty_label() {
    let run = RunResult::run(vec![text("", "a b c\nd e\n")], WhatToCount::default());
    assert_eq!(run.rows(), vec![String::from("  2  5 10 ")]);
}

#[test]
fn empty_run_has_no_rows() {
    let run = RunResult::new(WhatToCount::default());
    assert!(run.rows().is_empty());
    assert!(run.error_lines("wcrust").is_empty());
    assert_eq!(run.totals(), Count::zeros(&WhatToCount::default()));
}

#[test]
fn existing_and_missing_file() {
    let run = RunResult::run(
        vec![text("here.txt", "x\n"), failed("gone.txt", Failure::NotFound)],
        WhatToCount::default(),
    );
    assert_eq!(run.exit_status(), 1);
    assert_eq!(
        run.error_lines("wcrust"),
        vec![String::from("wcrust: gone.txt: No such file or directory")]
    );
    assert_eq!(
        run.rows(),
        vec![
            String::from(" 1 1 2 here.txt"),
            String::from(" 0 0 0 gone.txt"),
            String::from(" 1 1 2 total"),
        ]
    );
    assert_eq!(
        run.totals(),
        Count { lines: Some(1), words: Some(1), chars: Some(2), bytes: None }
    );
}

#[test]
fn failed_rows_have_the_width_of_the_others() {
    let long = "word ".repeat(250);
    let run = RunResult::run(
        vec![
            failed("first", Failure::IsDirectory),
            text("long", &long),
            failed("last", Failure::ReadError(String::from("stream did not contain valid UTF-8"))),
        ],
        WhatToCount::default(),
    );
    assert_eq!(
        run.rows(),
        vec![
            String::from("    0    0    0 first"),
            String::from("    1  250 1250 long"),
            String::from("    0    0    0 last"),
            String::from("    1  250 1250 total"),
        ]
    );
    assert_eq!(
        run.error_lines("wc"),
        vec![
            String::from("wc: first: Is a directory"),
            String::from("wc: last: stream did not contain valid UTF-8"),
        ]
    );
}

#[test]
fn width_comes_from_the_totals() {
    let run = RunResult::run(
        vec![text("a", "12345 789\n"), text("b", "1\n")],
        WhatToCount { lines: false, words: false, chars: true, bytes: false },
    );
    assert_eq!(run.totals().max_w(), 3);
    assert_eq!(
        run.rows(),
        vec![String::from(" 10 a"), String::from("  2 b"), String::from(" 12 total")]
    );
    let run = RunResult::run(
        vec![text("a", "1234\n"), text("b", "6789\n")],
        WhatToCount { lines: false, words: false, chars: true, bytes: false },
    );
    assert_eq!(
        run.rows(),
        vec![String::from("  5 a"), String::from("  5 b"), String::from(" 10 total")]
    );
}

#[test]
fn no_value_is_wider_than_its_column() {
    let contents = ["", "a", "a b c d e f g h i j k\n", "\n\n\n\n\n\n\n\n\n\n\n\n"];
    let wtc = WhatToCount { lines: true, words: true, chars: true, bytes: true };
    let mut inputs = Vec::new();
    for (i, content) in contents.into_iter().enumerate() {
        inputs.push(text(&format!("f{}", i), content));
    }
    let run = RunResult::run(inputs, wtc);
    let width = run.totals().max_w();
    for item in run.items() {
        let count = item.outcome.as_ref().unwrap();
        for value in [count.lines, count.words, count.chars, count.bytes] {
            assert!(value.unwrap().to_string().len() < width);
        }
    }
    for row in run.rows() {
        let label_len = row.rsplit(' ').next().unwrap().len();
        assert_eq!(row.len(), 4 * width + 1 + label_len);
    }
}

#[test]
fn failure_messages() {
    assert_eq!(Failure::NotFound.message(), "No such file or directory");
    assert_eq!(Failure::IsDirectory.message(), "Is a directory");
    assert_eq!(
        Failure::ReadError(String::from("permission denied")).message(),
        "permission denied"
    );
}

#[test]
fn error_line_names_program_path_and_reason() {
    assert_eq!(
        error_line("wcrust", "a/b.txt", &Failure::NotFound),
        "wcrust: a/b.txt: No such file or directory"
    );
    assert_eq!(error_line("wcrust", "src", &Failure::IsDirectory), "wcrust: src: Is a directory");
    assert_eq!(
        error_line("p", "", &Failure::ReadError(String::from("broken pipe"))),
        "p: : broken pipe"
    );
}
