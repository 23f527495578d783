//! Replacing a record of a collection.

use crate::error::{outcome, Failure, MocksError};
use crate::json::{put, Json, JsonMap, JsonV, Members};
use crate::storage::operation::select_one::find_record;
use crate::storage::operation::{
    build_search_resource_key, first_match, resolve, resource, set_resource, store_resource,
    with_record,
};
use vstd::prelude::*;

verus! {

/// The members of an object; none for any other value.
pub open spec fn fields(v: JsonV) -> Members {
    match v {
        JsonV::Object(m) => m,
        _ => Members::empty(),
    }
}

/// The record that takes the place of `record`: the fields of the input,
/// with the `id` that `record` has.
pub open spec fn replacement(record: JsonV, input: JsonV) -> JsonV {
    match record.field("id"@) {
        Some(id) => JsonV::Object(put(fields(input), "id"@, id)),
        None => JsonV::Object(fields(input)),
    }
}

/// What replacing gives: the record that takes the place of the first one
/// of the collection that answers to the identifier.
pub open spec fn replace_result(doc: JsonV, name: Seq<char>, id: Seq<char>, input: JsonV) -> Result<
    JsonV,
    Failure,
> {
    match resource(doc, name) {
        Some(JsonV::Array(items)) => if first_match(items, id) >= 0 {
            Ok(replacement(items[first_match(items, id)], input))
        } else {
            Err(Failure::ObjectNotFound)
        },
        _ => Err(Failure::ResourceNotFound),
    }
}

/// The document after the replacement; where replacing fails the document
/// is unchanged.
pub open spec fn replace_doc(doc: JsonV, name: Seq<char>, id: Seq<char>, input: JsonV) -> JsonV {
    match resource(doc, name) {
        Some(JsonV::Array(items)) => if first_match(items, id) >= 0 {
            set_resource(
                doc,
                resolve(doc, name),
                JsonV::Array(
                    items.update(
                        first_match(items, id),
                        replacement(items[first_match(items, id)], input),
                    ),
                ),
            )
        } else {
            doc
        },
        _ => doc,
    }
}

/// Builds the record that takes the place of `record`.
pub fn replace_target_with_input(record: &Json, input: &Json) -> (r: Json)
    ensures
        r@ == replacement(record@, input@),
{
    let mut members = match input {
        Json::Object(m) => m.duplicate(),
        _ => JsonMap::new(),
    };
    match record.get("id") {
        Some(id) => {
            members.insert("id".to_owned(), id.duplicate());
        },
        None => {},
    }
    Json::Object(members)
}

/// Replaces the first record of the collection that answers to the
/// identifier by the fields of the input, keeping the identifier.
pub fn replace(data: &mut Json, resource_key: &str, search_key: &str, input: &Json) -> (r: Result<
    Json,
    MocksError,
>)
    ensures
        outcome(r) == replace_result(old(data)@, resource_key@, search_key@, input@),
        final(data)@ == replace_doc(old(data)@, resource_key@, search_key@, input@),
{
    let search_resource_key = build_search_resource_key(data, resource_key);
    match data.get(search_resource_key.as_str()) {
        Some(Json::Array(items)) => match find_record(items, search_key) {
            Some(i) => {
                let record = replace_target_with_input(&items[i], input);
                let values = with_record(items, i, record.duplicate());
                store_resource(data, search_resource_key, Json::Array(values));
                Ok(record)
            },
            None => Err(MocksError::ObjectNotFound),
        },
        _ => Err(MocksError::ResourceNotFound),
    }
}

} // verus!
