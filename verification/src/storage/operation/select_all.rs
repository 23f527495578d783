//! Listing a resource.

use crate::error::{outcome, Failure, MocksError};
use crate::json::{Json, JsonV};
use crate::storage::operation::{build_search_resource_key, resource};
use vstd::prelude::*;

verus! {

/// What listing the resource gives: its value as it stands, where the name
/// leads to an array or an object.
pub open spec fn select_all_result(doc: JsonV, name: Seq<char>) -> Result<JsonV, Failure> {
    match resource(doc, name) {
        Some(v) => if v.is_resource() {
            Ok(v)
        } else {
            Err(Failure::ResourceNotFound)
        },
        None => Err(Failure::ResourceNotFound),
    }
}

/// Lists the resource.
pub fn select_all(data: &Json, resource_key: &str) -> (r: Result<Json, MocksError>)
    ensures
        outcome(r) == select_all_result(data@, resource_key@),
{
    let search_resource_key = build_search_resource_key(data, resource_key);
    match data.get(search_resource_key.as_str()) {
        Some(v) => if v.is_array() || v.is_object() {
            Ok(v.duplicate())
        } else {
            Err(MocksError::ResourceNotFound)
        },
        None => Err(MocksError::ResourceNotFound),
    }
}

} // verus!
