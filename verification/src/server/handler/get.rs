//! The answers to GET requests.

use crate::error::{Failure, MocksError};
use crate::json::{object_of, Json, JsonV};
use crate::storage::operation::select_all::select_all_result;
use crate::storage::operation::select_one::select_one_result;
use crate::storage::operation::select_with_filter::{params_view, select_with_filter_result};
use crate::storage::Storage;
use vstd::prelude::*;

verus! {

/// What listing a resource answers: status 200 and the listed value under
/// the name of the resource. The filters are applied where there are any.
pub open spec fn get_all_answer(
    doc: JsonV,
    resource: Seq<char>,
    params: Seq<(Seq<char>, Seq<char>)>,
) -> Result<(int, JsonV), Failure> {
    let listed = if params.len() == 0 {
        select_all_result(doc, resource)
    } else {
        select_with_filter_result(doc, resource, params)
    };
    match listed {
        Ok(value) => Ok((200, object_of(seq![(resource, value)]))),
        Err(e) => Err(e),
    }
}

/// What fetching a record answers: status 200 and the record. A request
/// with filters is refused.
pub open spec fn get_one_answer(
    doc: JsonV,
    resource: Seq<char>,
    id: Seq<char>,
    params: Seq<(Seq<char>, Seq<char>)>,
) -> Result<(int, JsonV), Failure> {
    if params.len() > 0 {
        Err(Failure::QueryParamsNotAllowed)
    } else {
        match select_one_result(doc, resource, id) {
            Ok(value) => Ok((200, value)),
            Err(e) => Err(e),
        }
    }
}

/// The view of an answer.
pub open spec fn answer_view(r: Result<(u16, Json), MocksError>) -> Result<(int, JsonV), Failure> {
    match r {
        Ok(a) => Ok((a.0 as int, a.1@)),
        Err(e) => Err(e@),
    }
}

/// Answers a request for a whole resource.
pub fn get_all(storage: &Storage, resource: &str, params: &Vec<(String, String)>) -> (r: Result<
    (u16, Json),
    MocksError,
>)
    ensures
        answer_view(r) == get_all_answer(storage.data@, resource@, params_view(params@)),
{
    let listed = if params.len() == 0 {
        storage.get_all(resource)
    } else {
        storage.get_all_with_filter(resource, params)
    };
    match listed {
        Ok(value) => {
            let pairs = vec![(resource, value)];
            assert(crate::json::pairs_view(pairs@) =~= seq![(resource@, value@)]);
            Ok((200, Json::object(pairs)))
        },
        Err(e) => Err(e),
    }
}

/// Answers a request for one record.
pub fn get_one(storage: &Storage, resource: &str, id: &str, params: &Vec<(String, String)>) -> (r:
    Result<(u16, Json), MocksError>)
    ensures
        answer_view(r) == get_one_answer(storage.data@, resource@, id@, params_view(params@)),
{
    if params.len() > 0 {
        return Err(MocksError::QueryParamsNotAllowed);
    }
    match storage.get_one(resource, id) {
        Ok(value) => Ok((200, value)),
        Err(e) => Err(e),
    }
}

} // verus!
