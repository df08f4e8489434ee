//! What to answer to a query: the decisions of the service that sits in
//! front of the resolver. Sending the answer is the caller's work.

use crate::commands::process_outcome;
use crate::commands::Action;
use crate::commands::Commands;
use crate::context::context_data;
use crate::context::text_at;
use crate::context::ContextData;
use crate::context::Json;
use crate::error::error_message;
use crate::metadata::Table;
use crate::query::parse_query_string;
use crate::text::words;
use tera::Context;
use vstd::prelude::*;

verus! {

/// The status of an answer that reports a failure.
#[derive(Clone, Copy, Debug, PartialEq, Eq, Structural)]
pub enum FailureStatus {
    /// The query could not be resolved.
    BadRequest,
    /// The resolver's result cannot be used.
    InternalServerError,
}

impl FailureStatus {
    /// The HTTP status code.
    pub fn code(&self) -> (code: u16)
        ensures
            code == (match self {
                FailureStatus::BadRequest => 400u16,
                FailureStatus::InternalServerError => 500u16,
            }),
    {
        match self {
            FailureStatus::BadRequest => 400,
            FailureStatus::InternalServerError => 500,
        }
    }
}

/// The answer to a query.
pub enum Reply {
    /// Send the user on to the location, with a temporary redirect.
    Redirect { location: String },
    /// Show the page made from the context.
    Page { context: Context },
    /// Report the failure with the status, the message being the body.
    Failure { status: FailureStatus, message: String },
}

/// An answer as plain values.
pub enum ReplyView {
    Redirect { location: Seq<char> },
    Page { data: ContextData },
    Failure { status: FailureStatus, message: Seq<char> },
}

impl View for Reply {
    type V = ReplyView;

    open spec fn view(&self) -> ReplyView {
        match self {
            Reply::Redirect { location } => ReplyView::Redirect { location: location@ },
            Reply::Page { context } => ReplyView::Page { data: context_data(*context) },
            Reply::Failure { status, message } => ReplyView::Failure { status: *status, message: message@ },
        }
    }
}

/// The answer to a redirect with this data: a redirect to the text under
/// `redirect_url`, or a failure where the key is missing or holds no text.
pub open spec fn redirect_reply(data: ContextData) -> ReplyView {
    if !data.contains_key("redirect_url"@) {
        ReplyView::Failure { status: FailureStatus::InternalServerError, message: "missing redirect URL"@ }
    } else {
        match data["redirect_url"@] {
            Json::Text(location) => ReplyView::Redirect { location },
            _ => ReplyView::Failure {
                status: FailureStatus::InternalServerError,
                message: "malformed redirect URL"@,
            },
        }
    }
}

/// The answer to a query string: its first word is resolved as a command
/// with the other words as arguments. A query without a word and a command
/// that cannot be resolved are bad requests.
pub open spec fn reply_to(table: Table, query: Seq<char>) -> ReplyView {
    if words(query).len() == 0 {
        ReplyView::Failure { status: FailureStatus::BadRequest, message: "no command provided"@ }
    } else {
        match process_outcome(table, words(query)[0], words(query).skip(1)) {
            Ok(found) => match found.action {
                Action::Redirect => redirect_reply(found.data),
                Action::Render => ReplyView::Page { data: found.data },
            },
            Err(error) => ReplyView::Failure { status: FailureStatus::BadRequest, message: error_message(error) },
        }
    }
}

/// The answer to a redirect whose data is in the context.
pub fn redirect(context: &Context) -> (reply: Reply)
    ensures
        reply@ == redirect_reply(context_data(*context)),
{
    match text_at(context, "redirect_url") {
        Some(Some(location)) => Reply::Redirect { location },
        Some(None) => Reply::Failure {
            status: FailureStatus::InternalServerError,
            message: "malformed redirect URL".to_owned(),
        },
        None => Reply::Failure {
            status: FailureStatus::InternalServerError,
            message: "missing redirect URL".to_owned(),
        },
    }
}

/// The answer to a query string.
pub fn answer(commands: &Commands, query: &str) -> (reply: Reply)
    ensures
        reply@ == reply_to(commands@, query@),
{
    match parse_query_string(query) {
        Ok(parsed) => match commands.process(parsed.cmd, &parsed.args) {
            Ok(found) => match found.action {
                Action::Redirect => redirect(&found.context),
                Action::Render => Reply::Page { context: found.context },
            },
            Err(error) => Reply::Failure { status: FailureStatus::BadRequest, message: error.message() },
        },
        Err(message) => Reply::Failure { status: FailureStatus::BadRequest, message },
    }
}

} // verus!
