//! The answers to PATCH requests.

use crate::error::MocksError;
use crate::json::Json;
use crate::server::context::Payload;
use crate::server::handler::get::answer_view;
use crate::server::handler::put::answered;
use crate::storage::operation::update::{update_doc, update_result};
use crate::storage::operation::update_one::{update_one_doc, update_one_result};
use crate::storage::Storage;
use vstd::prelude::*;

verus! {

/// Answers a request to merge into a record: status 200 and the merged
/// record.
pub fn patch(storage: &mut Storage, resource: &str, id: &str, payload: &Payload) -> (r: Result<
    (u16, Json),
    MocksError,
>)
    ensures
        answer_view(r) == answered(200, update_result(old(storage).data@, resource@, id@, payload.0@)),
        final(storage).data@ == update_doc(old(storage).data@, resource@, id@, payload.0@),
        final(storage).file == old(storage).file,
        final(storage).overwrite == old(storage).overwrite,
{
    match storage.update(resource, id, &payload.0) {
        Ok(value) => Ok((200, value)),
        Err(e) => Err(e),
    }
}

/// Answers a request to merge into a singleton: status 200 and the merged
/// object.
pub fn patch_one(storage: &mut Storage, resource: &str, payload: &Payload) -> (r: Result<
    (u16, Json),
    MocksError,
>)
    ensures
        answer_view(r) == answered(200, update_one_result(old(storage).data@, resource@, payload.0@)),
        final(storage).data@ == update_one_doc(old(storage).data@, resource@, payload.0@),
        final(storage).file == old(storage).file,
        final(storage).overwrite == old(storage).overwrite,
{
    match storage.update_one(resource, &payload.0) {
        Ok(value) => Ok((200, value)),
        Err(e) => Err(e),
    }
}

} // verus!
