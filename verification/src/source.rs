//! The configuration sources from which a command table is loaded.
//!
//! Reading and parsing a source is the caller's work; a source comes here
//! with what that work gave: the parsed entries, or why there are none.

use crate::metadata::CommandMetadata;
use crate::metadata::MetadataView;
use crate::metadata::Table;
use vstd::prelude::*;
use vstd::string::StringExecFns;

verus! {

/// What reading and parsing a source gave.
#[derive(Clone, Debug, PartialEq, Eq)]
pub enum SourceContent {
    /// The entries of the source, in the order in which they were read.
    Parsed(Vec<(String, CommandMetadata)>),
    /// The source could not be read, with the reason.
    Unreadable(String),
    /// The source was read but is not a mapping of commands, with the reason.
    Malformed(String),
}

/// A configuration source: its name, and what reading it gave.
#[derive(Clone, Debug, PartialEq, Eq)]
pub struct Source {
    pub name: String,
    pub content: SourceContent,
}

/// A loading failure: the source that failed and why.
#[derive(Clone, Debug, PartialEq, Eq)]
pub enum LoadError {
    /// The source could not be read.
    Read { source: String, reason: String },
    /// The source is not a mapping of commands.
    Parse { source: String, reason: String },
}

/// The content of a source as plain values.
pub enum SourceContentView {
    Parsed(Seq<(Seq<char>, MetadataView)>),
    Unreadable(Seq<char>),
    Malformed(Seq<char>),
}

/// A source as plain values.
pub struct SourceView {
    pub name: Seq<char>,
    pub content: SourceContentView,
}

/// A loading failure as plain values.
pub enum LoadErrorView {
    Read { source: Seq<char>, reason: Seq<char> },
    Parse { source: Seq<char>, reason: Seq<char> },
}

/// Parsed entries as plain values.
pub open spec fn entry_views(entries: Seq<(String, CommandMetadata)>) -> Seq<(Seq<char>, MetadataView)> {
    entries.map_values(|entry: (String, CommandMetadata)| (entry.0@, entry.1@))
}

/// Sources as plain values.
pub open spec fn source_views(sources: Seq<Source>) -> Seq<SourceView> {
    sources.map_values(|source: Source| source@)
}

impl View for SourceContent {
    type V = SourceContentView;

    open spec fn view(&self) -> SourceContentView {
        match self {
            SourceContent::Parsed(entries) => SourceContentView::Parsed(entry_views(entries@)),
            SourceContent::Unreadable(reason) => SourceContentView::Unreadable(reason@),
            SourceContent::Malformed(reason) => SourceContentView::Malformed(reason@),
        }
    }
}

impl View for Source {
    type V = SourceView;

    open spec fn view(&self) -> SourceView {
        SourceView { name: self.name@, content: self.content@ }
    }
}

impl View for LoadError {
    type V = LoadErrorView;

    open spec fn view(&self) -> LoadErrorView {
        match self {
            LoadError::Read { source, reason } => LoadErrorView::Read { source: source@, reason: reason@ },
            LoadError::Parse { source, reason } => LoadErrorView::Parse { source: source@, reason: reason@ },
        }
    }
}

/// The message that describes a loading failure.
pub open spec fn load_error_message(error: LoadErrorView) -> Seq<char> {
    match error {
        LoadErrorView::Read { source, reason } => "failed to read '"@ + source + "': "@ + reason,
        LoadErrorView::Parse { source, reason } => "failed to parse '"@ + source + "': "@ + reason,
    }
}

impl LoadError {
    /// The message that describes the failure.
    pub fn message(&self) -> (message: String)
        ensures
            message@ == load_error_message(self@),
    {
        match self {
            LoadError::Read { source, reason } => {
                let mut message = "failed to read '".to_owned();
                message.append(source.as_str());
                message.append("': ");
                message.append(reason.as_str());
                message
            },
            LoadError::Parse { source, reason } => {
                let mut message = "failed to parse '".to_owned();
                message.append(source.as_str());
                message.append("': ");
                message.append(reason.as_str());
                message
            },
        }
    }
}

/// The table after the entries have been put into it one after the other.
pub open spec fn merged(table: Table, entries: Seq<(Seq<char>, MetadataView)>) -> Table
    decreases entries.len(),
{
    if entries.len() == 0 {
        table
    } else {
        merged(table, entries.drop_last()).insert(entries.last().0, entries.last().1)
    }
}

/// What loading the sources yields: the entries of all sources, merged from
/// the first source to the last, or the failure of the first source that
/// could not be read or parsed.
pub open spec fn loaded(sources: Seq<SourceView>) -> Result<Table, LoadErrorView>
    decreases sources.len(),
{
    if sources.len() == 0 {
        Ok(Table::empty())
    } else {
        let source = sources.last();
        match loaded(sources.drop_last()) {
            Ok(table) => match source.content {
                SourceContentView::Parsed(entries) => Ok(merged(table, entries)),
                SourceContentView::Unreadable(reason) => Err(LoadErrorView::Read { source: source.name, reason }),
                SourceContentView::Malformed(reason) => Err(LoadErrorView::Parse { source: source.name, reason }),
            },
            Err(error) => Err(error),
        }
    }
}

/// A failure among the first sources is the failure of the whole load.
pub(crate) proof fn lemma_failure_stays(sources: Seq<SourceView>, count: int)
    requires
        0 <= count <= sources.len(),
        loaded(sources.take(count)) is Err,
    ensures
        loaded(sources) == loaded(sources.take(count)),
    decreases sources.len() - count,
{
    if count == sources.len() {
        assert(sources.take(count) =~= sources);
    } else {
        let longer = sources.take(count + 1);
        assert(longer.drop_last() =~= sources.take(count));
        lemma_failure_stays(sources, count + 1);
    }
}

} // verus!
