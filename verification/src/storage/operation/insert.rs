//! Adding a record to a collection.

use crate::error::{outcome, Failure, MocksError};
use crate::json::{Json, JsonV};
use crate::storage::operation::select_one::select_one_result;
use crate::storage::operation::{
    appended, build_search_resource_key, check_duplicate_id, extract_id_in_input, id_text,
    lemma_resolve_idempotent, resolve, resource, set_resource, store_resource,
};
use vstd::prelude::*;

verus! {

/// What adding the input gives: the input itself, where it has an
/// identifier that no record of the collection answers to.
pub open spec fn insert_result(doc: JsonV, name: Seq<char>, input: JsonV) -> Result<JsonV, Failure> {
    match id_text(input) {
        None => Err(Failure::InvalidRequest),
        Some(id) => if select_one_result(doc, name, id) is Ok {
            Err(Failure::DuplicateId)
        } else {
            match resource(doc, name) {
                Some(JsonV::Array(_)) => Ok(input),
                Some(JsonV::Object(_)) => Err(Failure::MethodNotAllowed),
                _ => Err(Failure::ObjectNotFound),
            }
        },
    }
}

/// The document after the input has been added: the collection has the
/// input as its last record; where adding fails the document is unchanged.
pub open spec fn insert_doc(doc: JsonV, name: Seq<char>, input: JsonV) -> JsonV {
    match (insert_result(doc, name, input), resource(doc, name)) {
        (Ok(_), Some(JsonV::Array(items))) => set_resource(
            doc,
            resolve(doc, name),
            JsonV::Array(items.push(input)),
        ),
        _ => doc,
    }
}

/// Adds the input to the collection as its last record.
pub fn insert(data: &mut Json, resource_key: &str, input: &Json) -> (r: Result<Json, MocksError>)
    ensures
        outcome(r) == insert_result(old(data)@, resource_key@, input@),
        final(data)@ == insert_doc(old(data)@, resource_key@, input@),
{
    let id = match extract_id_in_input(input) {
        Ok(id) => id,
        Err(e) => {
            return Err(e);
        },
    };
    let search_resource_key = build_search_resource_key(data, resource_key);
    proof {
        lemma_resolve_idempotent(data@, resource_key@);
    }
    match check_duplicate_id(data, search_resource_key.as_str(), id.as_str()) {
        Ok(_) => {},
        Err(e) => {
            return Err(e);
        },
    }
    insert_input(data, search_resource_key, input)
}

/// Adds the input to the array that stands under the key itself.
fn insert_input(data: &mut Json, resource_key: String, input: &Json) -> (r: Result<Json, MocksError>)
    ensures
        match old(data)@.field(resource_key@) {
            Some(JsonV::Array(items)) => outcome(r) == Ok::<JsonV, Failure>(input@) && final(data)@
                == set_resource(old(data)@, resource_key@, JsonV::Array(items.push(input@))),
            Some(JsonV::Object(_)) => outcome(r) == Err::<JsonV, Failure>(
                Failure::MethodNotAllowed,
            ) && final(data)@ == old(data)@,
            _ => outcome(r) == Err::<JsonV, Failure>(Failure::ObjectNotFound) && final(data)@ == old(
                data,
            )@,
        },
{
    match data.get(resource_key.as_str()) {
        Some(Json::Array(items)) => {
            let values = appended(items, input.duplicate());
            store_resource(data, resource_key, Json::Array(values));
            Ok(input.duplicate())
        },
        Some(Json::Object(_)) => Err(MocksError::MethodNotAllowed),
        _ => Err(MocksError::ObjectNotFound),
    }
}

} // verus!
