//! The metrics a run can report, and the set of them that is active.

use vstd::prelude::*;

verus! {

/// One countable property of a text.
#[derive(Clone, Copy, Debug, PartialEq, Eq)]
pub enum Metric {
    Lines,
    Words,
    Chars,
    Bytes,
}

/// The subset of metrics that is active for a run.
#[derive(Clone, Copy, Debug, PartialEq, Eq)]
pub struct WhatToCount {
    pub lines: bool,
    pub words: bool,
    pub chars: bool,
    pub bytes: bool,
}

/// The options of a run, as the command line gives them.
#[derive(Debug, PartialEq, Eq)]
pub struct Opt {
    pub bytes: bool,
    pub chars: bool,
    pub lines: bool,
    pub words: bool,
    /// Leave directories out of the run instead of reporting them.
    pub directories: bool,
    /// The files to process; none stands for the standard input.
    pub files: Vec<String>,
}

impl WhatToCount {
    /// Whether metric `k` is active in this set.
    pub open spec fn has(self, k: Metric) -> bool {
        match k {
            Metric::Lines => self.lines,
            Metric::Words => self.words,
            Metric::Chars => self.chars,
            Metric::Bytes => self.bytes,
        }
    }

    /// Whether no metric at all is active.
    pub open spec fn is_empty(self) -> bool {
        !self.lines && !self.words && !self.chars && !self.bytes
    }

    /// The set used when the user selects nothing: lines, words and
    /// characters, but not bytes.
    pub open spec fn standard() -> WhatToCount {
        WhatToCount { lines: true, words: true, chars: true, bytes: false }
    }

    /// What this selection stands for in a run: itself, or the standard
    /// set where it selects nothing.
    pub open spec fn resolved(self) -> WhatToCount {
        if self.is_empty() {
            WhatToCount::standard()
        } else {
            self
        }
    }

    /// The standard set of metrics.
    pub fn default() -> (wtc: WhatToCount)
        ensures
            wtc == WhatToCount::standard(),
    {
        WhatToCount { lines: true, words: true, chars: true, bytes: false }
    }

    /// The metrics that the options select, taken as they are.
    pub fn from_args(opt: &Opt) -> (wtc: WhatToCount)
        ensures
            wtc.lines == opt.lines,
            wtc.words == opt.words,
            wtc.chars == opt.chars,
            wtc.bytes == opt.bytes,
    {
        WhatToCount { lines: opt.lines, words: opt.words, chars: opt.chars, bytes: opt.bytes }
    }

    /// Resolves a selection: the standard set where nothing is selected,
    /// the selection unchanged otherwise.
    pub fn resolve(self) -> (wtc: WhatToCount)
        ensures
            wtc == self.resolved(),
            !wtc.is_empty(),
    {
        if self.lines || self.words || self.chars || self.bytes {
            self
        } else {
            WhatToCount::default()
        }
    }
}

} // verus!
