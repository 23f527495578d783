//! Fetching one record of a collection.

use crate::error::{outcome, Failure, MocksError};
use crate::json::{items_view, Json, JsonV};
use crate::storage::operation::{
    build_search_resource_key, first_match, lemma_first_match, matches_id, record_matches, resource,
};
use vstd::prelude::*;

verus! {

/// What fetching a record gives: the first record of the collection that
/// answers to the identifier.
pub open spec fn select_one_result(doc: JsonV, name: Seq<char>, id: Seq<char>) -> Result<
    JsonV,
    Failure,
> {
    match resource(doc, name) {
        Some(JsonV::Array(items)) => if first_match(items, id) >= 0 {
            Ok(items[first_match(items, id)])
        } else {
            Err(Failure::ObjectNotFound)
        },
        _ => Err(Failure::ObjectNotFound),
    }
}

/// The place of the first record that answers to the identifier.
pub fn find_record(items: &Vec<Json>, id: &str) -> (r: Option<usize>)
    ensures
        match r {
            Some(i) => i as int == first_match(items_view(items@), id@) && i < items@.len(),
            None => first_match(items_view(items@), id@) == -1,
        },
{
    let ghost views = items_view(items@);
    let mut i: usize = 0;
    while i < items.len()
        invariant
            i <= items.len(),
            views == items_view(items@),
            forall|j: int| 0 <= j < i ==> !matches_id(#[trigger] views[j], id@),
        decreases items.len() - i,
    {
        if record_matches(&items[i], id) {
            proof {
                lemma_first_match(views, id@);
                assert(matches_id(views[i as int], id@));
            }
            return Some(i);
        }
        i += 1;
    }
    proof {
        lemma_first_match(views, id@);
    }
    None
}

/// Fetches the record of the collection that answers to the identifier.
pub fn select_one(data: &Json, resource_key: &str, search_key: &str) -> (r: Result<
    Json,
    MocksError,
>)
    ensures
        outcome(r) == select_one_result(data@, resource_key@, search_key@),
{
    let search_resource_key = build_search_resource_key(data, resource_key);
    match data.get(search_resource_key.as_str()) {
        Some(Json::Array(items)) => match find_record(items, search_key) {
            Some(i) => Ok(items[i].duplicate()),
            None => Err(MocksError::ObjectNotFound),
        },
        _ => Err(MocksError::ObjectNotFound),
    }
}

} // verus!
