//! Text statistics: line, word, character and byte counts of texts, their
//! totals over a run of inputs, and the aligned rows that report them.
//!
//! A run goes in two phases. First every input is taken into a
//! [`run::RunResult`], which counts it and keeps the totals. Then the rows
//! are rendered, in columns whose width comes from the totals, so that
//! every value of every row fits.

pub mod chars;
pub mod count;
pub mod decimal;
pub mod input;
pub mod item;
pub mod lines;
pub mod metrics;
pub mod render;
pub mod run;
pub mod totals;
pub mod words;

pub use count::{count_string, Count};
pub use input::{resolve, sources, Resolution, Source};
pub use item::{error_line, Failure, Input, InputItem};
pub use metrics::{Metric, Opt, WhatToCount};
pub use render::render;
pub use run::RunResult;
