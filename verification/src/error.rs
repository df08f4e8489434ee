//! The ways in which resolving a command can fail.

use vstd::prelude::*;
use vstd::string::StringExecFns;

verus! {

/// Why a command could not be resolved.
#[derive(Clone, Debug, PartialEq, Eq)]
pub enum CommandError {
    /// The table holds neither the command nor a `default` entry.
    UnknownCommand(String),
    /// An alias names no target.
    MissingAliasTarget,
    /// A redirect has no URL.
    MissingRedirectTarget,
    /// An internal command that the resolver does not know.
    UnimplementedInternalCommand(String),
    /// The aliases that were followed lead back to one of themselves.
    CyclicAlias,
}

/// A failure as plain values.
pub enum CommandErrorView {
    UnknownCommand(Seq<char>),
    MissingAliasTarget,
    MissingRedirectTarget,
    UnimplementedInternalCommand(Seq<char>),
    CyclicAlias,
}

impl View for CommandError {
    type V = CommandErrorView;

    open spec fn view(&self) -> CommandErrorView {
        match self {
            CommandError::UnknownCommand(command) => CommandErrorView::UnknownCommand(command@),
            CommandError::MissingAliasTarget => CommandErrorView::MissingAliasTarget,
            CommandError::MissingRedirectTarget => CommandErrorView::MissingRedirectTarget,
            CommandError::UnimplementedInternalCommand(command) => CommandErrorView::UnimplementedInternalCommand(
                command@,
            ),
            CommandError::CyclicAlias => CommandErrorView::CyclicAlias,
        }
    }
}

/// The message that describes a failure.
pub open spec fn error_message(error: CommandErrorView) -> Seq<char> {
    match error {
        CommandErrorView::UnknownCommand(command) => "unknown command: '"@ + command + "'"@,
        CommandErrorView::MissingAliasTarget => "missing alias target"@,
        CommandErrorView::MissingRedirectTarget => "redirect command missing target URL"@,
        CommandErrorView::UnimplementedInternalCommand(command) => "internal command '"@ + command
            + "' not yet implemented."@,
        CommandErrorView::CyclicAlias => "alias chain never reaches a command"@,
    }
}

impl CommandError {
    /// The message that describes the failure.
    pub fn message(&self) -> (message: String)
        ensures
            message@ == error_message(self@),
    {
        match self {
            CommandError::UnknownCommand(command) => {
                let mut message = "unknown command: '".to_owned();
                message.append(command.as_str());
                message.append("'");
                message
            },
            CommandError::MissingAliasTarget => "missing alias target".to_owned(),
            CommandError::MissingRedirectTarget => "redirect command missing target URL".to_owned(),
            CommandError::UnimplementedInternalCommand(command) => {
                let mut message = "internal command '".to_owned();
                message.append(command.as_str());
                message.append("' not yet implemented.");
                message
            },
            CommandError::CyclicAlias => "alias chain never reaches a command".to_owned(),
        }
    }
}

} // verus!
