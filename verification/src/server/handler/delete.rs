//! The answer to DELETE requests.

use crate::error::MocksError;
use crate::json::Json;
use crate::server::handler::get::answer_view;
use crate::server::handler::put::answered;
use crate::storage::operation::remove::{remove_doc, remove_result};
use crate::storage::Storage;
use vstd::prelude::*;

verus! {

/// Answers a request to delete a record: status 200 and the deleted record.
pub fn delete(storage: &mut Storage, resource: &str, id: &str) -> (r: Result<(u16, Json), MocksError>)
    ensures
        answer_view(r) == answered(200, remove_result(old(storage).data@, resource@, id@)),
        final(storage).data@ == remove_doc(old(storage).data@, resource@, id@),
        final(storage).file == old(storage).file,
        final(storage).overwrite == old(storage).overwrite,
{
    match storage.delete(resource, id) {
        Ok(value) => Ok((200, value)),
        Err(e) => Err(e),
    }
}

} // verus!
