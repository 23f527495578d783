//! The document store: resources, and the operations on them.

pub mod operation;
pub mod reader;
pub mod writer;

use crate::codec::{parsed_text, pretty_text};
use crate::error::{outcome, Failure, MocksError};
use crate::json::{items_view, object_of, Json, JsonV, Members};
use crate::storage::operation::insert::{insert, insert_doc, insert_result};
use crate::storage::operation::remove::{remove, remove_doc, remove_result};
use crate::storage::operation::replace::{replace, replace_doc, replace_result};
use crate::storage::operation::replace_one::{replace_one, replace_one_doc, replace_one_result};
use crate::storage::operation::select_all::{select_all, select_all_result};
use crate::storage::operation::select_one::{select_one, select_one_result};
use crate::storage::operation::select_with_filter::{
    params_view, select_with_filter, select_with_filter_result,
};
use crate::storage::operation::update::{update, update_doc, update_result};
use crate::storage::operation::update_one::{update_one, update_one_doc, update_one_result};
use crate::storage::reader::{validate_result, Reader};
use crate::storage::writer::{WriteOrder, Writer};
use crate::text::{chars_of, lowercase, lowercase_text, trimmed, trimmed_text};
use vstd::prelude::*;

verus! {

/// A document, the file it came from, and whether changes go back to the
/// file.
pub struct Storage {
    pub file: String,
    pub data: Json,
    pub overwrite: bool,
}

/// The keys that stand for resources, in the order of the members: those
/// that are not empty and hold an array or an object.
pub open spec fn resource_names(m: Members) -> Seq<Seq<char>>
    decreases m.len(),
{
    if m.len() == 0 {
        Seq::empty()
    } else if m.last().0.len() > 0 && m.last().1.is_resource() {
        resource_names(m.drop_last()).push(m.last().0)
    } else {
        resource_names(m.drop_last())
    }
}

/// The resources of a document; a value that is no object has none.
pub open spec fn resources_of(doc: JsonV) -> Seq<Seq<char>> {
    match doc {
        JsonV::Object(m) => resource_names(m),
        _ => Seq::empty(),
    }
}

/// The views of a list of strings.
pub open spec fn names_view(names: Seq<String>) -> Seq<Seq<char>> {
    Seq::new(names.len(), |i: int| names[i]@)
}

/// The document that a new storage file holds: an empty collection and an
/// empty singleton, or one sample record in each.
pub open spec fn initial_document(empty: bool) -> JsonV {
    if empty {
        object_of(seq![("posts"@, JsonV::Array(Seq::empty())), ("profile"@, object_of(Seq::empty()))])
    } else {
        object_of(
            seq![
                (
                    "posts"@,
                    JsonV::Array(
                        seq![
                            object_of(
                                seq![
                                    ("id"@, JsonV::Number("1"@)),
                                    ("title"@, JsonV::String("Hello World"@)),
                                    ("content"@, JsonV::String("This is a sample post"@)),
                                ],
                            ),
                        ],
                    ),
                ),
                (
                    "profile"@,
                    object_of(
                        seq![("id"@, JsonV::Number("1"@)), ("name"@, JsonV::String("Sample User"@))],
                    ),
                ),
            ],
        )
    }
}

/// The answer to the question whether a file may be overwritten says yes:
/// without the white space at its ends and in lower case it begins with `y`.
pub open spec fn says_yes(answer: Seq<char>) -> bool {
    let t = lowercase_text(trimmed_text(answer));
    t.len() > 0 && t[0] == 'y'
}

impl Clone for Storage {
    /// A storage with a deep copy of the document.
    fn clone(&self) -> (r: Storage)
        ensures
            r.file@ == self.file@,
            r.data@ == self.data@,
            r.overwrite == self.overwrite,
    {
        Storage { file: self.file.clone(), data: self.data.duplicate(), overwrite: self.overwrite }
    }
}

impl Storage {
    /// Makes a storage of what reading the file at the path gave: the text
    /// of the file, or the message of the failure to read it.
    pub fn new(path: &str, overwrite: bool, loaded: Result<String, String>) -> (r: Result<
        Storage,
        MocksError,
    >)
        ensures
            match loaded {
                Err(message) => r matches Err(e) && e@ == Failure::FailedReadFile(message@),
                Ok(text) => match parsed_text(text@) {
                    Some(doc) => match validate_result(doc) {
                        Ok(_) => r matches Ok(s) && s.data@ == doc && s.file@ == path@ && s.overwrite
                            == overwrite,
                        Err(f) => r matches Err(e) && e@ == f,
                    },
                    None => r matches Err(MocksError::FailedReadFile(_)),
                },
            },
    {
        match Reader::new(path).read(loaded) {
            Ok(data) => Ok(Storage { file: path.to_owned(), data, overwrite }),
            Err(e) => Err(e),
        }
    }

    /// The document that a new storage file holds.
    pub fn initial_data(empty: bool) -> (r: Json)
        ensures
            r@ == initial_document(empty),
    {
        if empty {
            let pairs = vec![("posts", Json::Array(Vec::new())), ("profile", Json::object(Vec::new()))];
            proof {
                assert(items_view(Seq::<Json>::empty()) =~= Seq::<JsonV>::empty());
                assert(crate::json::pairs_view(Seq::<(&str, Json)>::empty()) =~= Members::empty());
                assert(crate::json::pairs_view(pairs@) =~= seq![
                    ("posts"@, JsonV::Array(Seq::empty())),
                    ("profile"@, object_of(Seq::empty())),
                ]);
            }
            Json::object(pairs)
        } else {
            let post_pairs = vec![
                ("id", Json::number("1")),
                ("title", Json::text("Hello World")),
                ("content", Json::text("This is a sample post")),
            ];
            let profile_pairs = vec![("id", Json::number("1")), ("name", Json::text("Sample User"))];
            proof {
                assert(crate::json::pairs_view(post_pairs@) =~= seq![
                    ("id"@, JsonV::Number("1"@)),
                    ("title"@, JsonV::String("Hello World"@)),
                    ("content"@, JsonV::String("This is a sample post"@)),
                ]);
                assert(crate::json::pairs_view(profile_pairs@) =~= seq![
                    ("id"@, JsonV::Number("1"@)),
                    ("name"@, JsonV::String("Sample User"@)),
                ]);
            }
            let post = Json::object(post_pairs);
            let posts = vec![post];
            proof {
                assert(items_view(posts@) =~= seq![post@]);
            }
            let pairs = vec![("posts", Json::Array(posts)), ("profile", Json::object(profile_pairs))];
            proof {
                assert(crate::json::pairs_view(pairs@) =~= seq![
                    ("posts"@, pairs@[0].1@),
                    ("profile"@, pairs@[1].1@),
                ]);
            }
            Json::object(pairs)
        }
    }

    /// Tells whether the answer to the question whether a file may be
    /// overwritten says yes.
    pub fn confirms(answer: &str) -> (r: bool)
        ensures
            r == says_yes(answer@),
    {
        let t = chars_of(lowercase(trimmed(answer).as_str()).as_str());
        t.len() > 0 && t[0] == 'y'
    }

    /// Tells whether the user must be asked before the file is written: it
    /// exists, and overwriting is not forced.
    pub fn must_ask(exists: bool, force_overwrite: bool) -> (r: bool)
        ensures
            r == (exists && !force_overwrite),
    {
        exists && !force_overwrite
    }

    /// Prepares a new storage file, asking before an existing file is
    /// overwritten. `exists` tells whether the file is there, and `answer`
    /// is what the user said where they had to be asked.
    pub fn init_file(file_path: &str, empty: bool, exists: bool, answer: &str) -> (r: Result<
        WriteOrder,
        MocksError,
    >)
        ensures
            if exists && !says_yes(answer@) {
                r matches Err(e) && e@ == Failure::Aborted
            } else {
                match pretty_text(initial_document(empty)) {
                    Some(text) => r matches Ok(order) && order.path@ == file_path@ && order.content@
                        == text,
                    None => r matches Err(MocksError::FailedWriteFile(_)),
                }
            },
    {
        Storage::init_file_with_overwrite(file_path, empty, false, exists, answer)
    }

    /// Prepares a new storage file. An existing file is overwritten only
    /// where that is forced or the user said yes; else the work is aborted.
    pub fn init_file_with_overwrite(
        file_path: &str,
        empty: bool,
        force_overwrite: bool,
        exists: bool,
        answer: &str,
    ) -> (r: Result<WriteOrder, MocksError>)
        ensures
            if exists && !force_overwrite && !says_yes(answer@) {
                r matches Err(e) && e@ == Failure::Aborted
            } else {
                match pretty_text(initial_document(empty)) {
                    Some(text) => r matches Ok(order) && order.path@ == file_path@ && order.content@
                        == text,
                    None => r matches Err(MocksError::FailedWriteFile(_)),
                }
            },
    {
        if Storage::must_ask(exists, force_overwrite) && !Storage::confirms(answer) {
            return Err(MocksError::Aborted);
        }
        let data = Storage::initial_data(empty);
        Writer::new(file_path).write(&data, None)
    }

    /// The names of the resources of the document.
    pub fn resources(&self) -> (r: Vec<String>)
        ensures
            names_view(r@) == resources_of(self.data@),
    {
        let mut resources: Vec<String> = Vec::new();
        assert(names_view(resources@) =~= Seq::empty());
        match &self.data {
            Json::Object(m) => {
                let mut i: usize = 0;
                assert(m@.subrange(0, 0) =~= Members::empty());
                while i < m.len()
                    invariant
                        i <= m@.len(),
                        names_view(resources@) == resource_names(m@.subrange(0, i as int)),
                    decreases m@.len() - i,
                {
                    proof {
                        let next = m@.subrange(0, i + 1);
                        assert(next.drop_last() =~= m@.subrange(0, i as int));
                        assert(next.last() == m@[i as int]);
                    }
                    let ghost before = resources@;
                    let v = m.value_at(i);
                    if !m.key_at(i).as_str().is_empty() && (v.is_object() || v.is_array()) {
                        resources.push(m.key_at(i).clone());
                        assert(names_view(resources@) =~= names_view(before).push(m@[i as int].0));
                    }
                    i += 1;
                }
                assert(m@.subrange(0, i as int) =~= m@);
            },
            _ => {},
        }
        resources
    }

    /// Lists a resource.
    pub fn get_all(&self, resource_key: &str) -> (r: Result<Json, MocksError>)
        ensures
            outcome(r) == select_all_result(self.data@, resource_key@),
    {
        select_all(&self.data, resource_key)
    }

    /// Lists the records of a collection that meet every filter.
    pub fn get_all_with_filter(&self, resource_key: &str, filters: &Vec<(String, String)>) -> (r:
        Result<Json, MocksError>)
        ensures
            outcome(r) == select_with_filter_result(
                self.data@,
                resource_key@,
                params_view(filters@),
            ),
    {
        select_with_filter(&self.data, resource_key, filters)
    }

    /// Fetches one record of a collection.
    pub fn get_one(&self, resource_key: &str, item_key: &str) -> (r: Result<Json, MocksError>)
        ensures
            outcome(r) == select_one_result(self.data@, resource_key@, item_key@),
    {
        select_one(&self.data, resource_key, item_key)
    }

    /// Adds a record to a collection.
    pub fn insert(&mut self, resource_key: &str, input: &Json) -> (r: Result<Json, MocksError>)
        ensures
            outcome(r) == insert_result(old(self).data@, resource_key@, input@),
            final(self).data@ == insert_doc(old(self).data@, resource_key@, input@),
            final(self).file == old(self).file,
            final(self).overwrite == old(self).overwrite,
    {
        insert(&mut self.data, resource_key, input)
    }

    /// Replaces a record of a collection.
    pub fn replace(&mut self, resource_key: &str, item_key: &str, input: &Json) -> (r: Result<
        Json,
        MocksError,
    >)
        ensures
            outcome(r) == replace_result(old(self).data@, resource_key@, item_key@, input@),
            final(self).data@ == replace_doc(old(self).data@, resource_key@, item_key@, input@),
            final(self).file == old(self).file,
            final(self).overwrite == old(self).overwrite,
    {
        replace(&mut self.data, resource_key, item_key, input)
    }

    /// Replaces a singleton.
    pub fn replace_one(&mut self, resource_key: &str, input: &Json) -> (r: Result<Json, MocksError>)
        ensures
            outcome(r) == replace_one_result(old(self).data@, resource_key@, input@),
            final(self).data@ == replace_one_doc(old(self).data@, resource_key@, input@),
            final(self).file == old(self).file,
            final(self).overwrite == old(self).overwrite,
    {
        replace_one(&mut self.data, resource_key, input)
    }

    /// Merges an input into a record of a collection.
    pub fn update(&mut self, resource_key: &str, item_key: &str, input: &Json) -> (r: Result<
        Json,
        MocksError,
    >)
        ensures
            outcome(r) == update_result(old(self).data@, resource_key@, item_key@, input@),
            final(self).data@ == update_doc(old(self).data@, resource_key@, item_key@, input@),
            final(self).file == old(self).file,
            final(self).overwrite == old(self).overwrite,
    {
        update(&mut self.data, resource_key, item_key, input)
    }

    /// Merges an input into a singleton.
    pub fn update_one(&mut self, resource_key: &str, input: &Json) -> (r: Result<Json, MocksError>)
        ensures
            outcome(r) == update_one_result(old(self).data@, resource_key@, input@),
            final(self).data@ == update_one_doc(old(self).data@, resource_key@, input@),
            final(self).file == old(self).file,
            final(self).overwrite == old(self).overwrite,
    {
        update_one(&mut self.data, resource_key, input)
    }

    /// Deletes a record of a collection.
    pub fn delete(&mut self, resource_key: &str, item_key: &str) -> (r: Result<Json, MocksError>)
        ensures
            outcome(r) == remove_result(old(self).data@, resource_key@, item_key@),
            final(self).data@ == remove_doc(old(self).data@, resource_key@, item_key@),
            final(self).file == old(self).file,
            final(self).overwrite == old(self).overwrite,
    {
        remove(&mut self.data, resource_key, item_key)
    }

    /// Decides what follows a change: a change that failed is reported as it
    /// is and nothing is written; after one that succeeded the document is
    /// to be saved, where changes go back to the file.
    pub fn operate(&self, changed: Result<Json, MocksError>, debug_file: Option<String>) -> (r:
        Result<(Json, Option<WriteOrder>), MocksError>)
        ensures
            match changed {
                Err(e) => r matches Err(f) && f == e,
                Ok(value) => if !self.overwrite {
                    r matches Ok((v, None)) && v == value
                } else {
                    match pretty_text(self.data@) {
                        Some(text) => r matches Ok((v, Some(order))) && v == value
                            && order.content@ == text && order.path@ == (match debug_file {
                            Some(file) => file@,
                            None => self.file@,
                        }),
                        None => r matches Err(MocksError::FailedWriteFile(_)),
                    }
                },
            },
    {
        let value = match changed {
            Ok(value) => value,
            Err(e) => {
                return Err(e);
            },
        };
        match self.write(debug_file) {
            Ok(order) => Ok((value, order)),
            Err(e) => Err(e),
        }
    }

    /// What a change comes to once the document has been saved: where the
    /// saving failed the change as a whole is reported as failed, though the
    /// document in memory keeps it.
    pub fn finish(value: Json, saved: Result<(), String>) -> (r: Result<Json, MocksError>)
        ensures
            match saved {
                Ok(_) => r matches Ok(v) && v == value,
                Err(message) => r matches Err(e) && e@ == Failure::FailedWriteFile(message@),
            },
    {
        match saved {
            Ok(_) => Ok(value),
            Err(message) => Err(MocksError::FailedWriteFile(message)),
        }
    }

    /// Prepares the saving of the document after a change: nothing is to be
    /// written where changes do not go back to the file.
    pub fn write(&self, debug_file: Option<String>) -> (r: Result<Option<WriteOrder>, MocksError>)
        ensures
            if !self.overwrite {
                r matches Ok(None)
            } else {
                match pretty_text(self.data@) {
                    Some(text) => r matches Ok(Some(order)) && order.content@ == text && order.path@
                        == (match debug_file {
                        Some(file) => file@,
                        None => self.file@,
                    }),
                    None => r matches Err(MocksError::FailedWriteFile(_)),
                }
            },
    {
        if self.overwrite {
            match Writer::new(self.file.as_str()).write(&self.data, debug_file) {
                Ok(order) => Ok(Some(order)),
                Err(e) => Err(e),
            }
        } else {
            Ok(None)
        }
    }
}

} // verus!
