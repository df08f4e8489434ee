//! The query string: a command word followed by its arguments.

use crate::text::split_words;
use crate::text::texts;
use crate::text::words;
use vstd::prelude::*;

verus! {

/// A query string taken apart: the command word and the arguments behind it.
#[derive(Clone, Debug, Eq, PartialEq, PartialOrd)]
pub struct ParsedQS<'a> {
    pub cmd: &'a str,
    pub args: Vec<&'a str>,
}

/// Takes a query string apart at its white space. The first word is the
/// command, the words behind it are the arguments; a query without a word
/// names no command.
pub fn parse_query_string<'a>(qs: &'a str) -> (parsed: Result<ParsedQS<'a>, String>)
    ensures
        match parsed {
            Ok(query) => {
                &&& words(qs@).len() > 0
                &&& query.cmd@ == words(qs@)[0]
                &&& texts(query.args@) == words(qs@).skip(1)
            },
            Err(message) => words(qs@).len() == 0 && message@ == "no command provided"@,
        },
{
    let mut args = split_words(qs);
    if args.len() < 1 {
        return Err("no command provided".to_owned());
    }
    let cmd = args.remove(0);
    Ok(ParsedQS { cmd, args })
}

} // verus!
