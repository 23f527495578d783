//! Merging an input into a singleton resource.

use crate::error::{outcome, Failure, MocksError, EXCEPTION_ERROR_MESSAGE};
use crate::json::{merge, Json, JsonV};
use crate::storage::operation::{
    build_search_resource_key, resolve, resource, set_resource, store_resource,
};
use vstd::prelude::*;

verus! {

/// What the merge gives: the singleton with the fields of the input set in
/// it. An input that is no object is refused.
pub open spec fn update_one_result(doc: JsonV, name: Seq<char>, input: JsonV) -> Result<
    JsonV,
    Failure,
> {
    match resource(doc, name) {
        Some(JsonV::Object(m)) => match input {
            JsonV::Object(o) => Ok(JsonV::Object(merge(m, o))),
            _ => Err(Failure::Exception(EXCEPTION_ERROR_MESSAGE@)),
        },
        _ => Err(Failure::ObjectNotFound),
    }
}

/// The document after the merge; where the merge fails the document is
/// unchanged.
pub open spec fn update_one_doc(doc: JsonV, name: Seq<char>, input: JsonV) -> JsonV {
    match update_one_result(doc, name, input) {
        Ok(v) => set_resource(doc, resolve(doc, name), v),
        Err(_) => doc,
    }
}

/// Merges the input into the singleton, and hands back the merged object.
pub fn update_one(data: &mut Json, resource_key: &str, input: &Json) -> (r: Result<Json, MocksError>)
    ensures
        outcome(r) == update_one_result(old(data)@, resource_key@, input@),
        final(data)@ == update_one_doc(old(data)@, resource_key@, input@),
{
    let search_resource_key = build_search_resource_key(data, resource_key);
    match data.get(search_resource_key.as_str()) {
        Some(Json::Object(m)) => match input {
            Json::Object(o) => {
                let mut members = m.duplicate();
                members.extend(o);
                let value = Json::Object(members);
                store_resource(data, search_resource_key, value.duplicate());
                Ok(value)
            },
            _ => Err(MocksError::Exception(EXCEPTION_ERROR_MESSAGE.to_owned())),
        },
        _ => Err(MocksError::ObjectNotFound),
    }
}

} // verus!
