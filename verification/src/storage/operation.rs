//! What the operations share: identifiers, the resolution of resource names,
//! and the search for a record.

use crate::error::{Failure, MocksError};
use crate::json::{duplicate_items, has_key, items_view, put, Json, JsonV, Members};
use crate::storage::operation::select_one::{select_one, select_one_result};
use crate::text::{chars_of, final_segment, find_last, last_index, lemma_last_index, matches_at};
use vstd::prelude::*;

pub mod insert;
pub mod remove;
pub mod replace;
pub mod replace_one;
pub mod select_all;
pub mod select_one;
pub mod select_with_filter;
pub mod update;
pub mod update_one;

verus! {

/// The identifier of a record as text: the `id` of an object where it is a
/// number or a string, and nothing otherwise.
pub open spec fn id_text(v: JsonV) -> Option<Seq<char>> {
    match v.field("id"@) {
        Some(JsonV::Number(t)) => Some(t),
        Some(JsonV::String(s)) => Some(s),
        _ => None,
    }
}

/// The record answers to the identifier.
pub open spec fn matches_id(v: JsonV, id: Seq<char>) -> bool {
    id_text(v) == Some(id)
}

/// The key is compound and its final segment is the name.
pub open spec fn suffix_match(key: Seq<char>, name: Seq<char>) -> bool {
    last_index(key, '/') >= 0 && final_segment(key) == name
}

/// The place of the last member whose key is compound and ends in the
/// name, or -1 where there is none.
pub open spec fn last_suffix_match(m: Members, name: Seq<char>) -> int
    decreases m.len(),
{
    if m.len() == 0 {
        -1
    } else if suffix_match(m.last().0, name) {
        m.len() - 1
    } else {
        last_suffix_match(m.drop_last(), name)
    }
}

/// The key under which a requested name is looked up: the name itself where
/// it is a key of the document; else the last compound key whose final
/// segment is the name; else the name unchanged.
pub open spec fn resolve(doc: JsonV, name: Seq<char>) -> Seq<char> {
    match doc {
        JsonV::Object(m) => if has_key(m, name) {
            name
        } else if last_suffix_match(m, name) >= 0 {
            m[last_suffix_match(m, name)].0
        } else {
            name
        },
        _ => name,
    }
}

/// The value that a requested name leads to, where it leads to one.
pub open spec fn resource(doc: JsonV, name: Seq<char>) -> Option<JsonV> {
    doc.field(resolve(doc, name))
}

/// The records of the collection that a requested name leads to; none where
/// it leads to no array.
pub open spec fn collection(doc: JsonV, name: Seq<char>) -> Seq<JsonV> {
    match resource(doc, name) {
        Some(JsonV::Array(items)) => items,
        _ => Seq::empty(),
    }
}

/// The name leads to a member of the document: it is a key, or the final
/// segment of a compound key.
pub open spec fn reachable(doc: JsonV, name: Seq<char>) -> bool {
    match doc {
        JsonV::Object(m) => has_key(m, name) || exists|i: int|
            0 <= i < m.len() && suffix_match(#[trigger] m[i].0, name),
        _ => false,
    }
}

/// The place of the first record that answers to the identifier, or -1
/// where none does.
pub open spec fn first_match(items: Seq<JsonV>, id: Seq<char>) -> int
    decreases items.len(),
{
    if items.len() == 0 {
        -1
    } else if first_match(items.drop_last(), id) >= 0 {
        first_match(items.drop_last(), id)
    } else if matches_id(items.last(), id) {
        items.len() - 1
    } else {
        -1
    }
}

/// `first_match` is the least place of a record that answers to the
/// identifier.
pub proof fn lemma_first_match(items: Seq<JsonV>, id: Seq<char>)
    ensures
        -1 <= first_match(items, id) < items.len(),
        first_match(items, id) >= 0 ==> matches_id(items[first_match(items, id)], id),
        forall|j: int|
            0 <= j < items.len() && (j < first_match(items, id) || first_match(items, id) < 0)
                ==> !matches_id(#[trigger] items[j], id),
    decreases items.len(),
{
    if items.len() > 0 {
        let d = items.drop_last();
        lemma_first_match(d, id);
        assert(forall|j: int| 0 <= j < d.len() ==> d[j] == items[j]);
    }
}

/// `last_suffix_match` is in range and points at a key that ends in the name.
pub proof fn lemma_last_suffix_match(m: Members, name: Seq<char>)
    ensures
        -1 <= last_suffix_match(m, name) < m.len(),
        last_suffix_match(m, name) >= 0 ==> suffix_match(m[last_suffix_match(m, name)].0, name),
        last_suffix_match(m, name) < 0 ==> forall|j: int|
            0 <= j < m.len() ==> !suffix_match(#[trigger] m[j].0, name),
    decreases m.len(),
{
    if m.len() > 0 {
        let d = m.drop_last();
        lemma_last_suffix_match(d, name);
        assert(forall|j: int| 0 <= j < d.len() ==> d[j] == m[j]);
    }
}

/// A resolved key resolves to itself.
pub proof fn lemma_resolve_idempotent(doc: JsonV, name: Seq<char>)
    ensures
        resolve(doc, resolve(doc, name)) == resolve(doc, name),
{
    match doc {
        JsonV::Object(m) => {
            lemma_last_suffix_match(m, name);
            if !has_key(m, name) && last_suffix_match(m, name) >= 0 {
                let i = last_suffix_match(m, name);
                assert(m[i].0 == resolve(doc, name));
            }
        },
        _ => {},
    }
}

/// The document with the value set under the key; a document that is no
/// object stays as it is.
pub open spec fn set_resource(doc: JsonV, key: Seq<char>, value: JsonV) -> JsonV {
    match doc {
        JsonV::Object(m) => JsonV::Object(put(m, key, value)),
        _ => doc,
    }
}

/// The identifier of an input as text.
pub fn extract_id_in_input(input: &Json) -> (r: Result<String, MocksError>)
    ensures
        match r {
            Ok(id) => id_text(input@) == Some(id@),
            Err(e) => id_text(input@) is None && e@ == Failure::InvalidRequest,
        },
{
    match input.get("id") {
        Some(Json::Number(t)) => Ok(t.clone()),
        Some(Json::String(s)) => Ok(s.clone()),
        _ => Err(MocksError::InvalidRequest),
    }
}

/// Tells whether the record answers to the identifier.
pub fn record_matches(v: &Json, id: &str) -> (r: bool)
    ensures
        r == matches_id(v@, id@),
{
    match v.get("id") {
        Some(Json::Number(t)) => same_text(t.as_str(), id),
        Some(Json::String(s)) => same_text(s.as_str(), id),
        _ => false,
    }
}

/// Tells whether two strings hold the same text.
pub fn same_text(a: &str, b: &str) -> (r: bool)
    ensures
        r == (a@ == b@),
{
    let x = chars_of(a);
    let y = chars_of(b);
    crate::text::same_chars(&x, &y)
}

/// Tells whether the key is compound and its final segment is the name.
fn key_ends_in(key: &str, name: &Vec<char>) -> (r: bool)
    ensures
        r == suffix_match(key@, name@),
{
    let k = chars_of(key);
    proof {
        lemma_last_index(k@, '/');
    }
    match find_last(&k, '/') {
        Some(p) => {
            let hit = k.len() - (p + 1) == name.len() && matches_at(&k, name, p + 1);
            assert(k@.subrange(p + 1, p + 1 + name@.len()) == final_segment(k@) || k.len() - (p + 1)
                != name.len());
            hit
        },
        None => false,
    }
}

/// The key under which a requested name is looked up.
pub fn build_search_resource_key(data: &Json, resource_key: &str) -> (r: String)
    ensures
        r@ == resolve(data@, resource_key@),
{
    match data {
        Json::Object(m) => {
            if m.find(resource_key).is_some() {
                return resource_key.to_owned();
            }
            let name = chars_of(resource_key);
            let mut i: usize = m.len();
            assert(m@.subrange(0, i as int) =~= m@);
            while i > 0
                invariant
                    i <= m@.len(),
                    name@ == resource_key@,
                    data@ == JsonV::Object(m@),
                    !has_key(m@, resource_key@),
                    last_suffix_match(m@, name@) == last_suffix_match(m@.subrange(0, i as int), name@),
                decreases i,
            {
                if key_ends_in(m.key_at(i - 1).as_str(), &name) {
                    assert(m@.subrange(0, i as int).last() == m@[i - 1]);
                    return m.key_at(i - 1).clone();
                }
                assert(m@.subrange(0, i as int).last() == m@[i - 1]);
                assert(m@.subrange(0, i as int).drop_last() =~= m@.subrange(0, i - 1));
                i -= 1;
            }
            resource_key.to_owned()
        },
        _ => resource_key.to_owned(),
    }
}

/// The items of the array that stands under the key itself.
pub fn extract_array_resource(data: &Json, resource_key: &str) -> (r: Result<Vec<Json>, MocksError>)
    ensures
        match r {
            Ok(items) => data@.field(resource_key@) == Some(JsonV::Array(items_view(items@))),
            Err(e) => e@ == Failure::ResourceNotFound && !(data@.field(resource_key@) matches Some(
                JsonV::Array(_),
            )),
        },
{
    match data.get(resource_key) {
        Some(Json::Array(items)) => Ok(duplicate_items(items)),
        _ => Err(MocksError::ResourceNotFound),
    }
}

/// Refuses an identifier that a record of the collection already has.
pub fn check_duplicate_id(data: &Json, resource_key: &str, id: &str) -> (r: Result<(), MocksError>)
    ensures
        match r {
            Ok(_) => select_one_result(data@, resource_key@, id@) is Err,
            Err(e) => e@ == Failure::DuplicateId && select_one_result(data@, resource_key@, id@) is Ok,
        },
{
    if select_one(data, resource_key, id).is_ok() {
        Err(MocksError::DuplicateId)
    } else {
        Ok(())
    }
}

/// A copy of the items without the one at place `at`.
pub fn without(items: &Vec<Json>, at: usize) -> (r: Vec<Json>)
    requires
        at < items@.len(),
    ensures
        items_view(r@) == items_view(items@).remove(at as int),
{
    let mut out = duplicate_items(items);
    let ghost before = out@;
    out.remove(at);
    proof {
        assert(items_view(out@) =~= items_view(items@).remove(at as int));
    }
    out
}

/// A copy of the items with `record` at place `at`.
pub fn with_record(items: &Vec<Json>, at: usize, record: Json) -> (r: Vec<Json>)
    requires
        at < items@.len(),
    ensures
        items_view(r@) == items_view(items@).update(at as int, record@),
{
    let mut out = duplicate_items(items);
    let ghost before = out@;
    out[at] = record;
    proof {
        assert(items_view(out@) =~= items_view(items@).update(at as int, record@));
    }
    out
}

/// A copy of the items with `record` after them.
pub fn appended(items: &Vec<Json>, record: Json) -> (r: Vec<Json>)
    ensures
        items_view(r@) == items_view(items@).push(record@),
{
    let mut out = duplicate_items(items);
    let ghost before = out@;
    out.push(record);
    proof {
        assert(items_view(out@) =~= items_view(items@).push(record@));
    }
    out
}

/// Sets the value under the key of the document; a document that is no
/// object stays as it is.
pub fn store_resource(data: &mut Json, key: String, value: Json)
    ensures
        final(data)@ == set_resource(old(data)@, key@, value@),
{
    let mut taken = Json::Null;
    core::mem::swap(data, &mut taken);
    match taken {
        Json::Object(mut m) => {
            m.insert(key, value);
            *data = Json::Object(m);
        },
        other => {
            *data = other;
        },
    }
}

} // verus!
