//! A keyword-driven command resolver, the engine of a quick launcher: the
//! user types a short command word and some arguments, and the resolver says
//! whether to send the user on to a URL built from the arguments or to show
//! some data.
//!
//! [`Commands`] is the table of commands. It is loaded once from
//! configuration sources that the caller has read and parsed
//! ([`Commands::load`]), and [`Commands::process`] resolves a command word
//! against it: aliases are followed, a word that the table does not hold goes
//! to the entry `default`, a redirect builds its URL and an internal command
//! describes the table. [`parse_query_string`] takes the user's line apart,
//! and [`reply::answer`] decides what a web service answers to it.
//!
//! Every function states what it returns over plain models: texts are
//! sequences of characters, tables are maps. The module [`laws`] holds what
//! follows for all tables and inputs.

pub mod commands;
pub mod context;
pub mod encoding;
pub mod error;
pub mod laws;
pub mod listing;
pub mod metadata;
pub mod query;
pub mod redirect;
pub mod reply;
pub mod source;
pub mod string_map;
pub mod text;

pub use commands::Action;
pub use commands::Commands;
pub use commands::Execute;
pub use error::CommandError;
pub use metadata::CommandKind;
pub use metadata::CommandMetadata;
pub use query::parse_query_string;
pub use query::ParsedQS;
pub use reply::FailureStatus;
pub use reply::Reply;
pub use source::LoadError;
pub use source::Source;
pub use source::SourceContent;
pub use string_map::StringMap;
