//! The rendering context that a resolution hands to its caller, and its
//! model.
//!
//! The context is the template engine's own type. What it holds is named by
//! [`context_data`]; the functions below are the only way this library writes
//! to a context or reads from one, and their contracts are taken on trust.

use crate::string_map::StringMap;
use std::collections::HashMap;
use tera::Context;
use vstd::prelude::*;

verus! {

/// The JSON values a context can hold, as far as this library tells them
/// apart.
pub enum Json {
    /// A JSON string.
    Text(Seq<char>),
    /// A JSON object.
    Object(Map<Seq<char>, Json>),
    /// Null, a boolean, a number or an array.
    Other,
}

/// The model of a context: a JSON value under each key.
pub type ContextData = Map<Seq<char>, Json>;

/// A map from names to texts.
pub type Fields = Map<Seq<char>, Seq<char>>;

/// A map from names to maps from names to texts.
pub type Records = Map<Seq<char>, Fields>;

/// A map from names to maps of maps from names to texts.
pub type Groups = Map<Seq<char>, Records>;

/// A map from names to texts, as it goes into a context.
pub type FieldMap = StringMap<String>;

/// A map from names to maps from names to texts, as it goes into a context.
pub type RecordMap = StringMap<FieldMap>;

/// A map from names to maps of maps from names to texts, as it goes into a
/// context.
pub type GroupMap = StringMap<RecordMap>;

/// The JSON object with a string under each key.
pub open spec fn fields_object(fields: Fields) -> Json {
    Json::Object(fields.map_values(|text: Seq<char>| Json::Text(text)))
}

/// The JSON object with an object of strings under each key.
pub open spec fn records_object(records: Records) -> Json {
    Json::Object(records.map_values(|fields: Fields| fields_object(fields)))
}

/// The JSON object with an object of objects of strings under each key.
pub open spec fn groups_object(groups: Groups) -> Json {
    Json::Object(groups.map_values(|records: Records| records_object(records)))
}

/// The template engine's context, carried as it is.
#[verifier::external_type_specification]
#[verifier::external_body]
pub struct ExContext(Context);

/// What a context holds: its keys, each with the JSON value stored under it.
pub uninterp spec fn context_data(context: Context) -> ContextData;

/// `tera::Context::new`: a new context holds nothing.
pub assume_specification[ Context::new ]() -> (fresh: Context)
    ensures
        context_data(fresh) == ContextData::empty(),
;

/// `tera::Context::insert` with a string: the string is stored under the key
/// as a JSON string, in place of what the key held before.
#[verifier::external_body]
pub(crate) fn insert_text(context: &mut Context, key: &str, text: &str)
    ensures
        context_data(*final(context)) == context_data(*old(context)).insert(key@, Json::Text(text@)),
{
    context.insert(key, text);
}

/// `tera::Context::insert` with a map from names to strings: the map is stored
/// under the key as a JSON object of strings, in place of what the key held
/// before.
#[verifier::external_body]
pub(crate) fn insert_fields(context: &mut Context, key: &str, fields: &FieldMap)
    ensures
        context_data(*final(context)) == context_data(*old(context)).insert(key@, fields_object(fields@)),
{
    let object: HashMap<&str, &str> = fields.entries.iter().map(|f| (f.0.as_str(), f.1.as_str())).collect();
    context.insert(key, &object);
}

/// `tera::Context::insert` with a map of maps of maps from names to strings:
/// it is stored under the key as JSON objects nested in the same way, in place
/// of what the key held before.
#[verifier::external_body]
pub(crate) fn insert_groups(context: &mut Context, key: &str, groups: &GroupMap)
    ensures
        context_data(*final(context)) == context_data(*old(context)).insert(key@, groups_object(groups@)),
{
    let object: HashMap<&str, HashMap<&str, HashMap<&str, &str>>> = groups.entries.iter().map(
        |g| (g.0.as_str(), g.1.entries.iter().map(
            |r| (r.0.as_str(), r.1.entries.iter().map(|f| (f.0.as_str(), f.1.as_str())).collect()),
        ).collect()),
    ).collect();
    context.insert(key, &object);
}

/// `tera::Context::get`, and `as_str` of the JSON value that it gives: the
/// outer option tells whether the key is there, the inner one whether it
/// holds a JSON string, which is handed out.
#[verifier::external_body]
pub(crate) fn text_at(context: &Context, key: &str) -> (found: Option<Option<String>>)
    ensures
        match found {
            Some(Some(text)) => context_data(*context).contains_key(key@) && context_data(*context)[key@]
                == Json::Text(text@),
            Some(None) => context_data(*context).contains_key(key@) && !(context_data(*context)[key@] is Text),
            None => !context_data(*context).contains_key(key@),
        },
{
    context.get(key).map(|value| value.as_str().map(|text| text.to_string()))
}

} // verus!
