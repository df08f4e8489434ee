//! What the command table stores for each command name.

use vstd::prelude::*;

verus! {

/// How a command is carried out.
#[derive(Clone, Copy, Debug, PartialEq, Eq, Structural)]
pub enum CommandKind {
    /// A built-in behaviour of the resolver.
    Internal,
    /// A redirect to a URL built from the arguments.
    Redirect,
    /// Another name for a command.
    Alias,
}

/// The display name of a kind.
pub open spec fn kind_name(kind: CommandKind) -> Seq<char> {
    match kind {
        CommandKind::Internal => "Internal"@,
        CommandKind::Redirect => "Redirect"@,
        CommandKind::Alias => "Alias"@,
    }
}

/// The three display names differ from each other.
pub proof fn lemma_kind_names_differ(a: CommandKind, b: CommandKind)
    ensures
        kind_name(a) == kind_name(b) <==> a == b,
{
    reveal_strlit("Internal");
    reveal_strlit("Redirect");
    reveal_strlit("Alias");
    if a != b {
        assert(kind_name(a)[0] != kind_name(b)[0]);
    }
}

impl CommandKind {
    /// The display name of the kind.
    pub fn name(&self) -> (name: &'static str)
        ensures
            name@ == kind_name(*self),
    {
        match self {
            CommandKind::Internal => "Internal",
            CommandKind::Redirect => "Redirect",
            CommandKind::Alias => "Alias",
        }
    }
}

/// The entry of one command. A redirect should carry a `url` and an alias a
/// `target`; an entry that lacks its field is accepted here and reported
/// when the command is used.
#[derive(Clone, Debug, PartialEq, Eq)]
pub struct CommandMetadata {
    /// How the command is carried out.
    pub kind: CommandKind,
    /// What the command is for, in words.
    pub description: String,
    /// For a redirect: the URL, which may hold the placeholder.
    pub url: Option<String>,
    /// For an alias: the name of the command to use instead.
    pub target: Option<String>,
}

/// A command's entry as plain values.
pub struct MetadataView {
    pub kind: CommandKind,
    pub description: Seq<char>,
    pub url: Option<Seq<char>>,
    pub target: Option<Seq<char>>,
}

/// The model of a command table: the entry of each command name.
pub type Table = Map<Seq<char>, MetadataView>;

/// The text of an optional string.
pub open spec fn optional_text(text: Option<String>) -> Option<Seq<char>> {
    match text {
        Some(text) => Some(text@),
        None => None,
    }
}

impl View for CommandMetadata {
    type V = MetadataView;

    open spec fn view(&self) -> MetadataView {
        MetadataView {
            kind: self.kind,
            description: self.description@,
            url: optional_text(self.url),
            target: optional_text(self.target),
        }
    }
}

/// A copy of an optional string.
fn copy_optional(text: &Option<String>) -> (copy: Option<String>)
    ensures
        optional_text(copy) == optional_text(*text),
{
    match text {
        Some(text) => Some(text.clone()),
        None => None,
    }
}

impl CommandMetadata {
    /// A copy of the entry.
    pub fn duplicate(&self) -> (copy: Self)
        ensures
            copy@ == self@,
    {
        CommandMetadata {
            kind: self.kind,
            description: self.description.clone(),
            url: copy_optional(&self.url),
            target: copy_optional(&self.target),
        }
    }
}

} // verus!
