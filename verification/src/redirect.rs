//! The URL of a redirect command.

use crate::commands::Action;
use crate::commands::ExecuteView;
use crate::context::Json;
use crate::encoding::percent_encoded;
use crate::error::CommandErrorView;
use crate::text::contains;
use crate::text::joined;
use crate::text::occurs;
use crate::text::replace;
use crate::text::replaced;
use vstd::prelude::*;
use vstd::string::StringExecFns;

verus! {

/// The token in a redirect URL that stands for the encoded arguments.
pub open spec fn placeholder() -> Seq<char> {
    "{query}"@
}

/// The URL of a redirect: the encoded query takes the place of every
/// placeholder in `url`, or goes behind `url` where it holds none.
pub open spec fn redirect_url(url: Seq<char>, encoded_query: Seq<char>) -> Seq<char> {
    if occurs(url, placeholder()) {
        replaced(url, placeholder(), encoded_query)
    } else {
        url + encoded_query
    }
}

/// What a redirect command with this URL yields for the arguments.
pub open spec fn redirect_outcome(url: Option<Seq<char>>, args: Seq<Seq<char>>) -> Result<
    ExecuteView,
    CommandErrorView,
> {
    match url {
        Some(url) => Ok(
            ExecuteView {
                action: Action::Redirect,
                data: map!["redirect_url"@ => Json::Text(redirect_url(url, percent_encoded(joined(args))))],
            },
        ),
        None => Err(CommandErrorView::MissingRedirectTarget),
    }
}

/// Builds the URL of a redirect from the command's URL and the encoded query.
pub fn build_redirect_url(url: &str, encoded_query: &str) -> (built: String)
    ensures
        built@ == redirect_url(url@, encoded_query@),
{
    if contains(url, "{query}") {
        replace(url, "{query}", encoded_query)
    } else {
        let mut built = url.to_owned();
        built.append(encoded_query);
        built
    }
}

} // verus!
