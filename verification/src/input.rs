//! Where the inputs of a run come from, and what is done with a path.

use vstd::prelude::*;
use crate::item::Failure;

verus! {

/// A place to read an input from.
#[derive(Debug, PartialEq, Eq)]
pub enum Source {
    /// The standard input.
    Stdin,
    /// The file at a path.
    Path(String),
}

/// A [`Source`] with its path as plain text.
pub enum SourceView {
    Stdin,
    Path(Seq<char>),
}

impl View for Source {
    type V = SourceView;

    open spec fn view(&self) -> SourceView {
        match self {
            Source::Stdin => SourceView::Stdin,
            Source::Path(path) => SourceView::Path(path@),
        }
    }
}

/// The label under which a source is reported: its path, and the empty
/// text for the standard input.
pub open spec fn label_of(source: SourceView) -> Seq<char> {
    match source {
        SourceView::Stdin => Seq::empty(),
        SourceView::Path(path) => path,
    }
}

/// The sources of a run over the files: the files in their order, or the
/// standard input alone where no file is given.
pub open spec fn sources_of(files: Seq<String>) -> Seq<SourceView> {
    if files.len() == 0 {
        seq![SourceView::Stdin]
    } else {
        Seq::new(files.len(), |i: int| SourceView::Path(files[i]@))
    }
}

/// The sources as plain values.
pub open spec fn source_views(sources: Seq<Source>) -> Seq<SourceView> {
    sources.map_values(|source: Source| source@)
}

impl Source {
    /// The label under which this source is reported.
    pub fn label(&self) -> (label: String)
        ensures
            label@ == label_of(self@),
    {
        match self {
            Source::Stdin => String::new(),
            Source::Path(path) => path.clone(),
        }
    }
}

/// The sources of a run over `files`: each file in order, or the standard
/// input alone where there is none.
pub fn sources(files: Vec<String>) -> (sources: Vec<Source>)
    ensures
        source_views(sources@) == sources_of(files@),
{
    let mut sources: Vec<Source> = Vec::new();
    if files.len() == 0 {
        sources.push(Source::Stdin);
        assert(source_views(sources@) =~= sources_of(files@));
        return sources;
    }
    for path in it: files.into_iter()
        invariant
            it.seq() == files@,
            source_views(sources@) == Seq::new(
                it.index() as nat,
                |i: int| SourceView::Path(files@[i]@),
            ),
    {
        let ghost before = source_views(sources@);
        sources.push(Source::Path(path));
        assert(source_views(sources@) =~= before.push(SourceView::Path(path@)));
    }
    sources
}

/// What a run does with a path.
#[derive(Debug, PartialEq, Eq)]
pub enum Resolution {
    /// Read it as a file.
    Read,
    /// Leave it out of the run: no item, no report.
    Omit,
    /// Record it as failed.
    Fail(Failure),
}

/// What a run does with a path, from what the file system says of it: a
/// path that names nothing is not found; a directory is left out where
/// directories are skipped and is a failure where they are not; anything
/// else is read.
pub open spec fn resolution_of(exists: bool, is_directory: bool, skip_directories: bool)
    -> Resolution {
    if !exists {
        Resolution::Fail(Failure::NotFound)
    } else if is_directory {
        if skip_directories {
            Resolution::Omit
        } else {
            Resolution::Fail(Failure::IsDirectory)
        }
    } else {
        Resolution::Read
    }
}

/// Decides what to do with a path: `exists` and `is_directory` say what the
/// file system holds at it, `skip_directories` whether directories are
/// left out of the run.
pub fn resolve(exists: bool, is_directory: bool, skip_directories: bool) -> (r: Resolution)
    ensures
        r == resolution_of(exists, is_directory, skip_directories),
{
    if !exists {
        Resolution::Fail(Failure::NotFound)
    } else if is_directory {
        if skip_directories {
            Resolution::Omit
        } else {
            Resolution::Fail(Failure::IsDirectory)
        }
    } else {
        Resolution::Read
    }
}

} // verus!
