//! The inputs of a run and what becomes of each: its counts, or the reason
//! why it could not be counted.

use vstd::prelude::*;
use crate::count::{count_string, counts, value_of, Count};
use crate::metrics::{Metric, WhatToCount};

verus! {

/// Why an input could not be counted.
#[derive(Debug, PartialEq, Eq)]
pub enum Failure {
    /// The path names nothing that exists.
    NotFound,
    /// The path names a directory.
    IsDirectory,
    /// The input exists but could not be read as text; the detail says why.
    ReadError(String),
}

/// A [`Failure`] with its detail as plain text.
pub enum FailureView {
    NotFound,
    IsDirectory,
    ReadError(Seq<char>),
}

impl View for Failure {
    type V = FailureView;

    open spec fn view(&self) -> FailureView {
        match self {
            Failure::NotFound => FailureView::NotFound,
            Failure::IsDirectory => FailureView::IsDirectory,
            Failure::ReadError(detail) => FailureView::ReadError(detail@),
        }
    }
}

/// The message that reports a failure.
pub open spec fn message_of(failure: FailureView) -> Seq<char> {
    match failure {
        FailureView::NotFound => "No such file or directory"@,
        FailureView::IsDirectory => "Is a directory"@,
        FailureView::ReadError(detail) => detail,
    }
}

/// The line that reports a failure of the input `label` on the error
/// channel of `program`.
pub open spec fn error_line_of(program: Seq<char>, label: Seq<char>, failure: FailureView) -> Seq<
    char,
> {
    program + ": "@ + label + ": "@ + message_of(failure)
}

impl Failure {
    /// The message that reports this failure.
    pub fn message(&self) -> (text: String)
        ensures
            text@ == message_of(self@),
    {
        match self {
            Failure::NotFound => String::from_str("No such file or directory"),
            Failure::IsDirectory => String::from_str("Is a directory"),
            Failure::ReadError(detail) => detail.clone(),
        }
    }
}

/// Renders the line that reports `failure` of the input `label` on the
/// error channel of `program`.
pub fn error_line(program: &str, label: &str, failure: &Failure) -> (line: String)
    ensures
        line@ == error_line_of(program@, label@, failure@),
{
    let message = failure.message();
    let mut line = String::from_str(program);
    line.append(": ");
    line.append(label);
    line.append(": ");
    line.append(message.as_str());
    line
}

/// An input as it reaches the run: its label, and its text or the reason
/// why there is none.
#[derive(Debug, PartialEq, Eq)]
pub struct Input {
    pub label: String,
    pub content: Result<String, Failure>,
}

/// An [`Input`] as plain values.
pub struct InputView {
    pub label: Seq<char>,
    pub content: Result<Seq<char>, FailureView>,
}

impl View for Input {
    type V = InputView;

    open spec fn view(&self) -> InputView {
        InputView {
            label: self.label@,
            content: match self.content {
                Ok(text) => Ok(text@),
                Err(failure) => Err(failure@),
            },
        }
    }
}

/// One input of a run with its outcome.
#[derive(Debug, PartialEq, Eq)]
pub struct InputItem {
    pub label: String,
    pub outcome: Result<Count, Failure>,
}

/// An [`InputItem`] as plain values.
pub struct ItemView {
    pub label: Seq<char>,
    pub outcome: Result<Map<Metric, nat>, FailureView>,
}

impl View for InputItem {
    type V = ItemView;

    open spec fn view(&self) -> ItemView {
        ItemView {
            label: self.label@,
            outcome: match self.outcome {
                Ok(count) => Ok(count@),
                Err(failure) => Err(failure@),
            },
        }
    }
}

/// The item that an input becomes under the metrics `m`: its text counted,
/// or its failure kept.
pub open spec fn item_of(input: InputView, m: WhatToCount) -> ItemView {
    ItemView {
        label: input.label,
        outcome: match input.content {
            Ok(text) => Ok(counts(text, m)),
            Err(failure) => Err(failure),
        },
    }
}

impl InputItem {
    /// Whether every value of this item is one that a text in memory can
    /// have.
    pub open spec fn bounded(self) -> bool {
        match self.outcome {
            Ok(count) => forall|k: Metric| #[trigger] value_of(count@, k) <= usize::MAX,
            Err(_) => true,
        }
    }

    /// Turns an input into its item: counts the text of an input that has
    /// one, under the metrics of `wtc`, and keeps the failure of one that
    /// has none.
    pub fn from_input(input: Input, wtc: &WhatToCount) -> (item: InputItem)
        ensures
            item@ == item_of(input@, *wtc),
            item.bounded(),
    {
        let Input { label, content } = input;
        match content {
            Ok(text) => InputItem { label, outcome: Ok(count_string(text, wtc)) },
            Err(failure) => InputItem { label, outcome: Err(failure) },
        }
    }
}

} // verus!
