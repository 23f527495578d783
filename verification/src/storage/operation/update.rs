//! Merging an input into a record of a collection.

use crate::error::{outcome, Failure, MocksError};
use crate::json::{merge, Json, JsonV};
use crate::storage::operation::select_one::find_record;
use crate::storage::operation::{
    build_search_resource_key, first_match, resolve, resource, set_resource, store_resource,
    with_record,
};
use vstd::prelude::*;

verus! {

/// The record after the input has been merged into it: the fields of the
/// input replace those of the same name and the others stay. An input that
/// is no object changes nothing.
pub open spec fn merged(record: JsonV, input: JsonV) -> JsonV {
    match (record, input) {
        (JsonV::Object(m), JsonV::Object(o)) => JsonV::Object(merge(m, o)),
        _ => record,
    }
}

/// What the merge gives: the merged record, for the first record of the
/// collection that answers to the identifier.
pub open spec fn update_result(doc: JsonV, name: Seq<char>, id: Seq<char>, input: JsonV) -> Result<
    JsonV,
    Failure,
> {
    match resource(doc, name) {
        Some(JsonV::Array(items)) => if first_match(items, id) >= 0 {
            Ok(merged(items[first_match(items, id)], input))
        } else {
            Err(Failure::ObjectNotFound)
        },
        _ => Err(Failure::ResourceNotFound),
    }
}

/// The document after the merge; where the merge fails the document is
/// unchanged.
pub open spec fn update_doc(doc: JsonV, name: Seq<char>, id: Seq<char>, input: JsonV) -> JsonV {
    match resource(doc, name) {
        Some(JsonV::Array(items)) => if first_match(items, id) >= 0 {
            set_resource(
                doc,
                resolve(doc, name),
                JsonV::Array(
                    items.update(first_match(items, id), merged(items[first_match(items, id)], input)),
                ),
            )
        } else {
            doc
        },
        _ => doc,
    }
}

/// Merges the input into a copy of the record.
pub fn update_resource_with_input(record: &Json, input: &Json) -> (r: Json)
    ensures
        r@ == merged(record@, input@),
{
    match (record, input) {
        (Json::Object(m), Json::Object(o)) => {
            let mut members = m.duplicate();
            members.extend(o);
            Json::Object(members)
        },
        _ => record.duplicate(),
    }
}

/// Merges the input into the first record of the collection that answers
/// to the identifier, and hands back the merged record.
pub fn update(data: &mut Json, resource_key: &str, search_key: &str, input: &Json) -> (r: Result<
    Json,
    MocksError,
>)
    ensures
        outcome(r) == update_result(old(data)@, resource_key@, search_key@, input@),
        final(data)@ == update_doc(old(data)@, resource_key@, search_key@, input@),
{
    let search_resource_key = build_search_resource_key(data, resource_key);
    match data.get(search_resource_key.as_str()) {
        Some(Json::Array(items)) => match find_record(items, search_key) {
            Some(i) => {
                let record = update_resource_with_input(&items[i], input);
                let values = with_record(items, i, record.duplicate());
                store_resource(data, search_resource_key, Json::Array(values));
                Ok(record)
            },
            None => Err(MocksError::ObjectNotFound),
        },
        _ => Err(MocksError::ResourceNotFound),
    }
}

} // verus!
