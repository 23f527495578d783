//! The answers to PUT requests.

use crate::error::{Failure, MocksError};
use crate::json::{Json, JsonV};
use crate::server::context::PayloadWithId;
use crate::server::handler::get::answer_view;
use crate::storage::operation::replace::{replace_doc, replace_result};
use crate::storage::operation::replace_one::{replace_one_doc, replace_one_result};
use crate::storage::Storage;
use vstd::prelude::*;

verus! {

/// The answer to a change: the status with the value that the change
/// handed back, or its failure.
pub open spec fn answered(status: int, changed: Result<JsonV, Failure>) -> Result<
    (int, JsonV),
    Failure,
> {
    match changed {
        Ok(value) => Ok((status, value)),
        Err(e) => Err(e),
    }
}

/// Answers a request to replace a record: status 200 and the new record.
pub fn put(storage: &mut Storage, resource: &str, id: &str, payload: &PayloadWithId) -> (r: Result<
    (u16, Json),
    MocksError,
>)
    ensures
        answer_view(r) == answered(
            200,
            replace_result(old(storage).data@, resource@, id@, payload.0@),
        ),
        final(storage).data@ == replace_doc(old(storage).data@, resource@, id@, payload.0@),
        final(storage).file == old(storage).file,
        final(storage).overwrite == old(storage).overwrite,
{
    match storage.replace(resource, id, &payload.0) {
        Ok(value) => Ok((200, value)),
        Err(e) => Err(e),
    }
}

/// Answers a request to replace a singleton: status 200 and the new object.
pub fn put_one(storage: &mut Storage, resource: &str, payload: &PayloadWithId) -> (r: Result<
    (u16, Json),
    MocksError,
>)
    ensures
        answer_view(r) == answered(200, replace_one_result(old(storage).data@, resource@, payload.0@)),
        final(storage).data@ == replace_one_doc(old(storage).data@, resource@, payload.0@),
        final(storage).file == old(storage).file,
        final(storage).overwrite == old(storage).overwrite,
{
    match storage.replace_one(resource, &payload.0) {
        Ok(value) => Ok((200, value)),
        Err(e) => Err(e),
    }
}

} // verus!
