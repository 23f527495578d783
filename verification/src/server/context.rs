//! The checks on request bodies.

use crate::json::{object_of, Json, JsonV};
use vstd::prelude::*;

verus! {

/// The message for a request body that is no object.
pub const INVALID_JSON_REQUEST: &'static str = "Invalid JSON format in request body.";

/// The message for a request body without an `id`.
pub const ID_REQUIRED: &'static str = "ID is required for creation or update.";

/// A request body that is an object.
#[derive(Debug, Clone)]
pub struct Payload(pub Json);

/// A request body that is an object and has an `id`.
#[derive(Debug, Clone)]
pub struct PayloadWithId(pub Json);

/// The answer to a request whose body is refused: status 400, and the
/// message under `error`.
pub open spec fn rejection(message: Seq<char>) -> (int, JsonV) {
    (400, object_of(seq![("error"@, JsonV::String(message))]))
}

/// The answer to a request whose body is refused.
pub fn to_rejection(message: &str) -> (r: (u16, Json))
    ensures
        (r.0 as int, r.1@) == rejection(message@),
{
    let pairs = vec![("error", Json::text(message))];
    assert(crate::json::pairs_view(pairs@) =~= seq![("error"@, JsonV::String(message@))]);
    (400, Json::object(pairs))
}

impl Payload {
    /// Accepts a request body that is an object.
    pub fn from_value(value: Json) -> (r: Result<Payload, (u16, Json)>)
        ensures
            match r {
                Ok(p) => value@ is Object && p.0 == value,
                Err(e) => !(value@ is Object) && (e.0 as int, e.1@) == rejection(
                    INVALID_JSON_REQUEST@,
                ),
            },
    {
        if !value.is_object() {
            return Err(to_rejection(INVALID_JSON_REQUEST));
        }
        Ok(Payload(value))
    }
}

impl PayloadWithId {
    /// Accepts a request body that is an object and has an `id`.
    pub fn from_value(value: Json) -> (r: Result<PayloadWithId, (u16, Json)>)
        ensures
            match r {
                Ok(p) => value@ is Object && value@.field("id"@) is Some && p.0 == value,
                Err(e) => (e.0 as int, e.1@) == rejection(
                    if value@ is Object {
                        ID_REQUIRED@
                    } else {
                        INVALID_JSON_REQUEST@
                    },
                ) && !(value@ is Object && value@.field("id"@) is Some),
            },
    {
        if !value.is_object() {
            return Err(to_rejection(INVALID_JSON_REQUEST));
        }
        if value.get("id").is_none() {
            return Err(to_rejection(ID_REQUIRED));
        }
        Ok(PayloadWithId(value))
    }
}

} // verus!
