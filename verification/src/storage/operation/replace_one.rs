//! Replacing a singleton resource.

use crate::error::{outcome, Failure, MocksError};
use crate::json::{Json, JsonV};
use crate::storage::operation::{
    build_search_resource_key, extract_id_in_input, id_text, resolve, resource, set_resource,
    store_resource,
};
use vstd::prelude::*;

verus! {

/// What replacing the singleton gives: the input, where it has an
/// identifier and the name leads to an object.
pub open spec fn replace_one_result(doc: JsonV, name: Seq<char>, input: JsonV) -> Result<
    JsonV,
    Failure,
> {
    if id_text(input) is None {
        Err(Failure::InvalidRequest)
    } else {
        match resource(doc, name) {
            Some(JsonV::Object(_)) => Ok(input),
            _ => Err(Failure::ObjectNotFound),
        }
    }
}

/// The document after the replacement: the input stands in the place of
/// the singleton; where replacing fails the document is unchanged.
pub open spec fn replace_one_doc(doc: JsonV, name: Seq<char>, input: JsonV) -> JsonV {
    if replace_one_result(doc, name, input) is Ok {
        set_resource(doc, resolve(doc, name), input)
    } else {
        doc
    }
}

/// Replaces the singleton by the input.
pub fn replace_one(data: &mut Json, resource_key: &str, input: &Json) -> (r: Result<Json, MocksError>)
    ensures
        outcome(r) == replace_one_result(old(data)@, resource_key@, input@),
        final(data)@ == replace_one_doc(old(data)@, resource_key@, input@),
{
    match extract_id_in_input(input) {
        Ok(_) => {},
        Err(e) => {
            return Err(e);
        },
    }
    let search_resource_key = build_search_resource_key(data, resource_key);
    match data.get(search_resource_key.as_str()) {
        Some(Json::Object(_)) => {
            store_resource(data, search_resource_key, input.duplicate());
            Ok(input.duplicate())
        },
        _ => Err(MocksError::ObjectNotFound),
    }
}

} // verus!
