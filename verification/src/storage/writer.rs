//! Saving a document: from a document to the text of a file.

use crate::codec::pretty_text;
use crate::error::{Failure, MocksError};
use crate::json::Json;
use vstd::prelude::*;

verus! {

/// What is to be written, and where.
#[derive(Debug, PartialEq, Eq)]
pub struct WriteOrder {
    pub path: String,
    pub content: String,
}

/// The writer of a storage file.
pub struct Writer {
    path: String,
}

impl Writer {
    /// The path of the file.
    pub closed spec fn path(&self) -> Seq<char> {
        self.path@
    }

    /// The file that is written: the one that the override names, where
    /// there is an override, else the writer's own.
    pub open spec fn target_of(&self, debug_file: Option<String>) -> Seq<char> {
        match debug_file {
            Some(file) => file@,
            None => self.path(),
        }
    }

    /// A writer of the file at the path.
    pub fn new(path: &str) -> (r: Writer)
        ensures
            r.path() == path@,
    {
        Writer { path: path.to_owned() }
    }

    /// The path of the file.
    pub fn file(&self) -> (r: &String)
        ensures
            r@ == self.path(),
    {
        &self.path
    }

    /// The file that is written.
    pub fn target(&self, debug_file: Option<String>) -> (r: String)
        ensures
            r@ == self.target_of(debug_file),
    {
        match debug_file {
            Some(file) => file,
            None => self.path.clone(),
        }
    }

    /// Prepares the writing of a value: the whole file is to be overwritten
    /// with the pretty-printed text of the value.
    pub fn write(&self, value: &Json, debug_file: Option<String>) -> (r: Result<
        WriteOrder,
        MocksError,
    >)
        ensures
            match pretty_text(value@) {
                Some(text) => r matches Ok(order) && order.path@ == self.target_of(debug_file)
                    && order.content@ == text,
                None => r matches Err(MocksError::FailedWriteFile(_)),
            },
    {
        let path = self.target(debug_file);
        match value.pretty() {
            Ok(content) => Ok(WriteOrder { path, content }),
            Err(message) => Err(MocksError::FailedWriteFile(message)),
        }
    }

    /// What the writing of the file comes to: a failure to write is
    /// reported with its message.
    pub fn written(done: Result<(), String>) -> (r: Result<(), MocksError>)
        ensures
            match done {
                Ok(_) => r is Ok,
                Err(message) => r matches Err(e) && e@ == Failure::FailedWriteFile(message@),
            },
    {
        match done {
            Ok(_) => Ok(()),
            Err(message) => Err(MocksError::FailedWriteFile(message)),
        }
    }
}

} // verus!
