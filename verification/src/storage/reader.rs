//! Loading a document: from the text of a file to a checked document.

use crate::codec::parsed_text;
use crate::error::{outcome, Failure, MocksError};
use crate::json::{Json, JsonMap, JsonV, Members};
use crate::text::{chars_of, final_segment, same_chars, segment_of};
use vstd::prelude::*;

verus! {

/// The text of the failure for a file whose root is no object.
pub const INVALID_JSON_FORMAT_ERROR: &'static str = "Storage file is invalid JSON format.";

/// The text of the failure for a document without any resource.
pub const UNABLE_TO_GEN_API_ERROR: &'static str = "Unable to generate API endpoints.";

/// The text of the failure for two keys with the same final segment.
pub const DUPLICATE_RESOURCE_ERROR: &'static str =
    "Duplicate resource found in storage file (e.g. api/v1/users and api/v2/users).";

/// Two keys of the members have the same final segment.
pub open spec fn duplicate_names(m: Members) -> bool {
    exists|i: int, j: int|
        0 <= i < j < m.len() && final_segment(#[trigger] m[i].0) == final_segment(
            #[trigger] m[j].0,
        )
}

/// Some member with a key that is not empty holds an array or an object.
pub open spec fn has_endpoint(m: Members) -> bool {
    exists|i: int| 0 <= i < m.len() && (#[trigger] m[i]).0.len() > 0 && m[i].1.is_resource()
}

/// What checking a value as a document gives: the value itself, where it is
/// an object of which no two keys have the same final segment and which
/// holds at least one resource.
pub open spec fn validate_result(doc: JsonV) -> Result<JsonV, Failure> {
    match doc {
        JsonV::Object(m) => if duplicate_names(m) {
            Err(Failure::FailedReadFile(DUPLICATE_RESOURCE_ERROR@))
        } else if !has_endpoint(m) {
            Err(Failure::FailedReadFile(UNABLE_TO_GEN_API_ERROR@))
        } else {
            Ok(doc)
        },
        _ => Err(Failure::FailedReadFile(INVALID_JSON_FORMAT_ERROR@)),
    }
}

/// Tells whether two keys of the members have the same final segment.
fn has_duplicate_names(m: &JsonMap) -> (r: bool)
    ensures
        r == duplicate_names(m@),
{
    let mut segments: Vec<Vec<char>> = Vec::new();
    let mut k: usize = 0;
    while k < m.len()
        invariant
            k <= m@.len(),
            segments@.len() == k,
            forall|i: int| 0 <= i < k ==> (#[trigger] segments@[i])@ == final_segment(m@[i].0),
        decreases m@.len() - k,
    {
        let key = chars_of(m.key_at(k).as_str());
        segments.push(segment_of(&key));
        k += 1;
    }
    let mut j: usize = 0;
    while j < segments.len()
        invariant
            j <= segments@.len(),
            segments@.len() == m@.len(),
            forall|i: int| 0 <= i < m@.len() ==> (#[trigger] segments@[i])@ == final_segment(m@[i].0),
            forall|a: int, b: int|
                0 <= a < b < j ==> final_segment(#[trigger] m@[a].0) != final_segment(
                    #[trigger] m@[b].0,
                ),
        decreases segments@.len() - j,
    {
        let mut i: usize = 0;
        while i < j
            invariant
                i <= j < segments@.len(),
                segments@.len() == m@.len(),
                forall|i: int|
                    0 <= i < m@.len() ==> (#[trigger] segments@[i])@ == final_segment(m@[i].0),
                forall|a: int|
                    0 <= a < i ==> final_segment(#[trigger] m@[a].0) != final_segment(m@[j as int].0),
            decreases j - i,
        {
            if same_chars(&segments[i], &segments[j]) {
                return true;
            }
            i += 1;
        }
        j += 1;
    }
    false
}

/// Tells whether some member with a key that is not empty holds an array
/// or an object.
fn holds_endpoint(m: &JsonMap) -> (r: bool)
    ensures
        r == has_endpoint(m@),
{
    let mut i: usize = 0;
    while i < m.len()
        invariant
            i <= m@.len(),
            forall|k: int|
                0 <= k < i ==> !((#[trigger] m@[k]).0.len() > 0 && m@[k].1.is_resource()),
        decreases m@.len() - i,
    {
        let v = m.value_at(i);
        if !m.key_at(i).as_str().is_empty() && (v.is_object() || v.is_array()) {
            return true;
        }
        i += 1;
    }
    false
}

/// Checks a value as a document.
pub fn validate(value: Json) -> (r: Result<Json, MocksError>)
    ensures
        outcome(r) == validate_result(value@),
        r matches Ok(doc) ==> doc == value,
{
    let checked = match &value {
        Json::Object(m) => {
            if has_duplicate_names(m) {
                Err(MocksError::FailedReadFile(DUPLICATE_RESOURCE_ERROR.to_owned()))
            } else if !holds_endpoint(m) {
                Err(MocksError::FailedReadFile(UNABLE_TO_GEN_API_ERROR.to_owned()))
            } else {
                Ok(())
            }
        },
        _ => Err(MocksError::FailedReadFile(INVALID_JSON_FORMAT_ERROR.to_owned())),
    };
    match checked {
        Ok(_) => Ok(value),
        Err(e) => Err(e),
    }
}

/// The reader of a storage file.
pub struct Reader {
    path: String,
}

impl Reader {
    /// The path of the file.
    pub closed spec fn path(&self) -> Seq<char> {
        self.path@
    }

    /// A reader of the file at the path.
    pub fn new(path: &str) -> (r: Reader)
        ensures
            r.path() == path@,
    {
        Reader { path: path.to_owned() }
    }

    /// The path of the file.
    pub fn file(&self) -> (r: &String)
        ensures
            r@ == self.path(),
    {
        &self.path
    }

    /// Makes a document of what reading the file gave: the text of the
    /// file, or the message of the failure to read it. The text must be JSON
    /// and the value a document.
    pub fn read(self, loaded: Result<String, String>) -> (r: Result<Json, MocksError>)
        ensures
            match loaded {
                Err(message) => outcome(r) == Err::<JsonV, Failure>(
                    Failure::FailedReadFile(message@),
                ),
                Ok(text) => match parsed_text(text@) {
                    Some(doc) => outcome(r) == validate_result(doc),
                    None => r matches Err(MocksError::FailedReadFile(_)),
                },
            },
    {
        let text = match loaded {
            Ok(text) => text,
            Err(message) => {
                return Err(MocksError::FailedReadFile(message));
            },
        };
        match Json::parse(text.as_str()) {
            Ok(value) => validate(value),
            Err(message) => Err(MocksError::FailedReadFile(message)),
        }
    }
}

} // verus!
