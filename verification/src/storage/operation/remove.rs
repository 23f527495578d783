//! Deleting a record of a collection.

use crate::error::{outcome, Failure, MocksError};
use crate::json::{Json, JsonV};
use crate::storage::operation::select_one::find_record;
use crate::storage::operation::{
    build_search_resource_key, first_match, resolve, resource, set_resource, store_resource,
    without,
};
use vstd::prelude::*;

verus! {

/// What deleting gives: the first record of the collection that answers to
/// the identifier.
pub open spec fn remove_result(doc: JsonV, name: Seq<char>, id: Seq<char>) -> Result<JsonV, Failure> {
    match resource(doc, name) {
        Some(JsonV::Array(items)) => if first_match(items, id) >= 0 {
            Ok(items[first_match(items, id)])
        } else {
            Err(Failure::ObjectNotFound)
        },
        _ => Err(Failure::ResourceNotFound),
    }
}

/// The document after the deletion: the collection has lost that one
/// record; where deleting fails the document is unchanged.
pub open spec fn remove_doc(doc: JsonV, name: Seq<char>, id: Seq<char>) -> JsonV {
    match resource(doc, name) {
        Some(JsonV::Array(items)) => if first_match(items, id) >= 0 {
            set_resource(
                doc,
                resolve(doc, name),
                JsonV::Array(items.remove(first_match(items, id))),
            )
        } else {
            doc
        },
        _ => doc,
    }
}

/// Deletes the first record of the collection that answers to the
/// identifier, and hands it back.
pub fn remove(data: &mut Json, resource_key: &str, search_key: &str) -> (r: Result<Json, MocksError>)
    ensures
        outcome(r) == remove_result(old(data)@, resource_key@, search_key@),
        final(data)@ == remove_doc(old(data)@, resource_key@, search_key@),
{
    let search_resource_key = build_search_resource_key(data, resource_key);
    match data.get(search_resource_key.as_str()) {
        Some(Json::Array(items)) => match find_record(items, search_key) {
            Some(i) => {
                let removed = items[i].duplicate();
                let values = without(items, i);
                store_resource(data, search_resource_key, Json::Array(values));
                Ok(removed)
            },
            None => Err(MocksError::ObjectNotFound),
        },
        _ => Err(MocksError::ResourceNotFound),
    }
}

} // verus!
