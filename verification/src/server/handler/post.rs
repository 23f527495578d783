//! The answer to POST requests.

use crate::error::MocksError;
use crate::json::Json;
use crate::server::context::PayloadWithId;
use crate::server::handler::get::answer_view;
use crate::server::handler::put::answered;
use crate::storage::operation::insert::{insert_doc, insert_result};
use crate::storage::Storage;
use vstd::prelude::*;

verus! {

/// Answers a request to add a record: status 201 and the record.
pub fn post(storage: &mut Storage, resource: &str, payload: &PayloadWithId) -> (r: Result<
    (u16, Json),
    MocksError,
>)
    ensures
        answer_view(r) == answered(201, insert_result(old(storage).data@, resource@, payload.0@)),
        final(storage).data@ == insert_doc(old(storage).data@, resource@, payload.0@),
        final(storage).file == old(storage).file,
        final(storage).overwrite == old(storage).overwrite,
{
    match storage.insert(resource, &payload.0) {
        Ok(value) => Ok((201, value)),
        Err(e) => Err(e),
    }
}

} // verus!
