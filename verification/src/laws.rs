//! Laws that hold of the operations, each proved from their definitions.

use crate::error::Failure;
use crate::json::{
    has_key, key_index, lemma_merge_member, lemma_put_member, put, sorted, JsonV, Members,
};
use crate::storage::operation::insert::{insert_doc, insert_result};
use crate::storage::operation::remove::{remove_doc, remove_result};
use crate::storage::operation::replace::{fields, replace_doc, replacement};
use crate::storage::operation::replace_one::{replace_one_doc, replace_one_result};
use crate::storage::operation::select_all::select_all_result;
use crate::storage::operation::select_one::select_one_result;
use crate::storage::operation::select_with_filter::{
    criteria_of, filter_items, matches_all, select_with_filter_result, unsearchable, Criterion,
};
use crate::storage::operation::update::{merged, update_doc};
use crate::storage::operation::update_one::{update_one_doc, update_one_result};
use crate::storage::operation::{
    collection, first_match, id_text, last_suffix_match, lemma_first_match,
    lemma_last_suffix_match, matches_id, reachable, resolve, resource, set_resource, suffix_match,
};
use crate::storage::reader::{duplicate_names, validate_result};
use crate::text::{final_segment, last_index, lemma_final_segment_flat, lemma_last_index};
use vstd::prelude::*;

verus! {

/// A name that is neither a key of the document nor the final segment of a
/// compound key leads nowhere: listing it fails with `ResourceNotFound`, and
/// fetching a record of it with `ObjectNotFound`.
pub proof fn lemma_unknown_name(doc: JsonV, name: Seq<char>, id: Seq<char>)
    requires
        !reachable(doc, name),
    ensures
        resource(doc, name) is None,
        select_all_result(doc, name) == Err::<JsonV, Failure>(Failure::ResourceNotFound),
        select_one_result(doc, name, id) == Err::<JsonV, Failure>(Failure::ObjectNotFound),
{
    match doc {
        JsonV::Object(m) => {
            lemma_last_suffix_match(m, name);
        },
        _ => {},
    }
}

/// Members with the same keys at the same places resolve every name alike.
pub proof fn lemma_same_keys(m: Members, n: Members, name: Seq<char>)
    requires
        m.len() == n.len(),
        forall|i: int| 0 <= i < m.len() ==> (#[trigger] m[i]).0 == n[i].0,
    ensures
        has_key(m, name) == has_key(n, name),
        last_suffix_match(m, name) == last_suffix_match(n, name),
    decreases m.len(),
{
    if has_key(m, name) {
        let i = key_index(m, name);
        assert(n[i].0 == name);
    }
    if has_key(n, name) {
        let i = key_index(n, name);
        assert(m[i].0 == name);
    }
    if m.len() > 0 {
        let a = m.drop_last();
        let b = n.drop_last();
        assert(forall|i: int| 0 <= i < a.len() ==> a[i] == m[i] && b[i] == n[i]);
        lemma_same_keys(a, b, name);
        assert(m.last().0 == n.last().0);
    }
}

/// Setting the value of a key that the document has changes what that key
/// leads to and nothing else: every name resolves as before.
pub proof fn lemma_set_resource(doc: JsonV, key: Seq<char>, value: JsonV, name: Seq<char>)
    requires
        doc.wf(),
        doc.field(key) is Some,
    ensures
        resolve(set_resource(doc, key, value), name) == resolve(doc, name),
        set_resource(doc, key, value).field(key) == Some(value),
        name != key ==> set_resource(doc, key, value).field(name) == doc.field(name),
{
    let m = doc->Object_0;
    let n = put(m, key, value);
    let i = key_index(m, key);
    assert(n == m.update(i, (key, value)));
    lemma_same_keys(m, n, name);
    lemma_last_suffix_match(m, name);
    if last_suffix_match(m, name) >= 0 {
        assert(n[last_suffix_match(m, name)].0 == m[last_suffix_match(m, name)].0);
    }
    lemma_put_member(m, key, value, key);
    lemma_put_member(m, key, value, name);
}

/// A record that has been added is found under its identifier, and what is
/// found is the input as it was given.
pub proof fn lemma_insert_then_select(doc: JsonV, name: Seq<char>, input: JsonV)
    requires
        doc.wf(),
        insert_result(doc, name, input) is Ok,
    ensures
        id_text(input) is Some,
        select_one_result(insert_doc(doc, name, input), name, id_text(input)->0) == Ok::<
            JsonV,
            Failure,
        >(input),
{
    let id = id_text(input)->0;
    let key = resolve(doc, name);
    let items = collection(doc, name);
    let after = items.push(input);
    lemma_set_resource(doc, key, JsonV::Array(after), name);
    assert(first_match(items, id) < 0);
    assert(after.drop_last() =~= items);
    assert(after.last() == input);
}

/// A second record with the identifier of one that has been added is
/// refused with `DuplicateId`.
pub proof fn lemma_insert_twice(doc: JsonV, name: Seq<char>, input: JsonV, again: JsonV)
    requires
        doc.wf(),
        insert_result(doc, name, input) is Ok,
        id_text(again) == id_text(input),
    ensures
        insert_result(insert_doc(doc, name, input), name, again) == Err::<JsonV, Failure>(
            Failure::DuplicateId,
        ),
{
    lemma_insert_then_select(doc, name, input);
}

/// A merge keeps every field that the input does not name, and gives every
/// field that the input names the value of the input.
pub proof fn lemma_merge_keeps_fields(record: JsonV, input: JsonV, key: Seq<char>)
    requires
        record.wf(),
        input.wf(),
        record is Object,
        input is Object,
    ensures
        merged(record, input).field(key) == if input.field(key) is Some {
            input.field(key)
        } else {
            record.field(key)
        },
{
    lemma_merge_member(record->Object_0, input->Object_0, key);
}

/// A replacement has the `id` of the record it replaces, and for the rest
/// the fields of the input and no others.
pub proof fn lemma_replacement_fields(record: JsonV, input: JsonV, key: Seq<char>)
    requires
        input.wf(),
        record.field("id"@) is Some,
    ensures
        replacement(record, input).field(key) == if key == "id"@ {
            record.field("id"@)
        } else {
            input.field(key)
        },
{
    let m = fields(input);
    assert(sorted(m));
    lemma_put_member(m, "id"@, record.field("id"@)->0, key);
    if !(input is Object) {
        assert(!has_key(m, key));
    }
}

/// A deletion takes exactly one record out of the collection, the first
/// that answers to the identifier, and hands that record back.
pub proof fn lemma_remove_one(doc: JsonV, name: Seq<char>, id: Seq<char>)
    requires
        doc.wf(),
        remove_result(doc, name, id) is Ok,
    ensures
        0 <= first_match(collection(doc, name), id) < collection(doc, name).len(),
        remove_result(doc, name, id) == Ok::<JsonV, Failure>(
            collection(doc, name)[first_match(collection(doc, name), id)],
        ),
        matches_id(remove_result(doc, name, id)->Ok_0, id),
        collection(remove_doc(doc, name, id), name) == collection(doc, name).remove(
            first_match(collection(doc, name), id),
        ),
        collection(remove_doc(doc, name, id), name).len() == collection(doc, name).len() - 1,
{
    let key = resolve(doc, name);
    let items = collection(doc, name);
    let i = first_match(items, id);
    lemma_first_match(items, id);
    lemma_set_resource(doc, key, JsonV::Array(items.remove(i)), name);
}

/// After a deletion no record answers to the identifier any more, where
/// only one did before.
pub proof fn lemma_remove_then_select(doc: JsonV, name: Seq<char>, id: Seq<char>)
    requires
        doc.wf(),
        remove_result(doc, name, id) is Ok,
        forall|j: int|
            0 <= j < collection(doc, name).len() && j != first_match(collection(doc, name), id)
                ==> !matches_id(#[trigger] collection(doc, name)[j], id),
    ensures
        select_one_result(remove_doc(doc, name, id), name, id) == Err::<JsonV, Failure>(
            Failure::ObjectNotFound,
        ),
{
    let items = collection(doc, name);
    let i = first_match(items, id);
    lemma_remove_one(doc, name, id);
    let after = items.remove(i);
    lemma_first_match(after, id);
    let k = first_match(after, id);
    if k >= 0 {
        if k < i {
            assert(after[k] == items[k]);
        } else {
            assert(after[k] == items[k + 1]);
        }
    }
}

/// A name that is no key but the final segment of a compound key resolves
/// to such a key.
pub proof fn lemma_resolve_by_segment(doc: JsonV, name: Seq<char>)
    requires
        reachable(doc, name),
    ensures
        doc.field(resolve(doc, name)) is Some,
        resolve(doc, name) == name || suffix_match(resolve(doc, name), name),
{
    let m = doc->Object_0;
    lemma_last_suffix_match(m, name);
    if !has_key(m, name) {
        let i = last_suffix_match(m, name);
        assert(m[i].0 == resolve(doc, name));
    }
}

/// A name that holds a `/` is looked up as it stands: no part of a compound
/// key but its final segment stands for the key.
pub proof fn lemma_compound_name(doc: JsonV, name: Seq<char>)
    requires
        last_index(name, '/') >= 0,
    ensures
        resolve(doc, name) == name,
{
    match doc {
        JsonV::Object(m) => {
            lemma_last_suffix_match(m, name);
            let i = last_suffix_match(m, name);
            if i >= 0 {
                lemma_final_segment_flat(m[i].0);
            }
        },
        _ => {},
    }
}

/// In a document that was accepted a name leads to one key only: a key
/// whose final segment is the name is the key that the name resolves to.
pub proof fn lemma_unambiguous(doc: JsonV, name: Seq<char>, i: int)
    requires
        validate_result(doc) is Ok,
        0 <= i < doc->Object_0.len(),
        final_segment(doc->Object_0[i].0) == name,
    ensures
        resolve(doc, name) == doc->Object_0[i].0,
{
    let m = doc->Object_0;
    let key = m[i].0;
    lemma_final_segment_flat(key);
    lemma_last_index(key, '/');
    assert(final_segment(name) =~= name);
    if has_key(m, name) {
        let j = key_index(m, name);
        if i < j {
            assert(final_segment(m[i].0) == final_segment(m[j].0));
        } else if j < i {
            assert(final_segment(m[j].0) == final_segment(m[i].0));
        }
    } else {
        if last_index(key, '/') < 0 {
            assert(final_segment(key) =~= key);
        }
        assert(suffix_match(m[i].0, name));
        lemma_last_suffix_match(m, name);
        let l = last_suffix_match(m, name);
        if i < l {
            assert(final_segment(m[i].0) == final_segment(m[l].0));
        } else if l < i {
            assert(final_segment(m[l].0) == final_segment(m[i].0));
        }
    }
}

/// Setting an array or an object under a key that the document has keeps
/// the document acceptable: its keys stay as they are.
pub proof fn lemma_set_keeps_validity(doc: JsonV, key: Seq<char>, value: JsonV)
    requires
        doc.wf(),
        validate_result(doc) is Ok,
        doc.field(key) is Some,
        value.is_resource(),
    ensures
        validate_result(set_resource(doc, key, value)) is Ok,
        set_resource(doc, key, value).wf() == value.wf(),
{
    let m = doc->Object_0;
    let n = put(m, key, value);
    let i = key_index(m, key);
    assert(n == m.update(i, (key, value)));
    crate::json::lemma_put_sorted(m, key, value);
    if duplicate_names(n) {
        let (a, b) = choose|a: int, b: int|
            0 <= a < b < n.len() && final_segment(#[trigger] n[a].0) == final_segment(
                #[trigger] n[b].0,
            );
        assert(final_segment(m[a].0) == final_segment(m[b].0));
    }
    let w = choose|w: int| 0 <= w < m.len() && (#[trigger] m[w]).0.len() > 0 && m[w].1.is_resource();
    assert(n[w].0.len() > 0 && n[w].1.is_resource());
    if value.wf() {
        assert forall|k: int| 0 <= k < n.len() implies (#[trigger] n[k]).1.wf() by {
            if k != i {
                assert(n[k] == m[k]);
            }
        }
    } else {
        assert(!n[i].1.wf());
    }
}

/// Every change leaves an accepted document acceptable.
pub proof fn lemma_changes_keep_validity(doc: JsonV, name: Seq<char>, id: Seq<char>, input: JsonV)
    requires
        doc.wf(),
        validate_result(doc) is Ok,
    ensures
        validate_result(insert_doc(doc, name, input)) is Ok,
        validate_result(replace_doc(doc, name, id, input)) is Ok,
        validate_result(replace_one_doc(doc, name, input)) is Ok,
        validate_result(update_doc(doc, name, id, input)) is Ok,
        validate_result(update_one_doc(doc, name, input)) is Ok,
        validate_result(remove_doc(doc, name, id)) is Ok,
{
    let key = resolve(doc, name);
    let items = collection(doc, name);
    let i = first_match(items, id);
    if insert_result(doc, name, input) is Ok {
        lemma_set_keeps_validity(doc, key, JsonV::Array(items.push(input)));
    }
    if resource(doc, name) is Some {
        if resource(doc, name)->0 is Array && i >= 0 {
            lemma_set_keeps_validity(
                doc,
                key,
                JsonV::Array(items.update(i, replacement(items[i], input))),
            );
            lemma_set_keeps_validity(doc, key, JsonV::Array(items.update(i, merged(items[i], input))));
            lemma_set_keeps_validity(doc, key, JsonV::Array(items.remove(i)));
        }
        if replace_one_result(doc, name, input) is Ok {
            lemma_set_keeps_validity(doc, key, input);
        }
        if update_one_result(doc, name, input) is Ok {
            lemma_set_keeps_validity(doc, key, update_one_result(doc, name, input)->Ok_0);
        }
    }
}

/// A value that is no object, or an object none of whose members holds an
/// array or an object, is refused as a document.
pub proof fn lemma_invalid_documents(doc: JsonV)
    requires
        match doc {
            JsonV::Object(m) => forall|i: int| 0 <= i < m.len() ==> !(#[trigger] m[i]).1.is_resource(),
            _ => true,
        },
    ensures
        validate_result(doc) matches Err(Failure::FailedReadFile(_)),
{
}

/// Where the evaluation of the filters succeeds, it keeps exactly the
/// records that meet every filter, in their order.
pub proof fn lemma_filter_keeps(items: Seq<JsonV>, criteria: Seq<Criterion>)
    requires
        filter_items(items, criteria) is Ok,
    ensures
        filter_items(items, criteria)->Ok_0 == items.filter(
            |v: JsonV| matches_all(v, criteria) == Ok::<bool, Failure>(true),
        ),
        forall|i: int| 0 <= i < items.len() ==> matches_all(#[trigger] items[i], criteria) is Ok,
    decreases items.len(),
{
    reveal(Seq::filter);
    if items.len() > 0 {
        let d = items.drop_last();
        lemma_filter_keeps(d, criteria);
        assert(forall|i: int| 0 <= i < d.len() ==> d[i] == items[i]);
    }
}

/// Where the evaluation of the filters fails, it fails with
/// `InvalidSearchValue`.
pub proof fn lemma_filter_failure_kind(items: Seq<JsonV>, criteria: Seq<Criterion>)
    ensures
        filter_items(items, criteria) is Err ==> filter_items(items, criteria) == Err::<
            Seq<JsonV>,
            Failure,
        >(Failure::InvalidSearchValue),
    decreases items.len(),
{
    if items.len() > 0 {
        lemma_filter_failure_kind(items.drop_last(), criteria);
    }
}

/// A filter on a field that holds an array or an object in some record makes
/// the whole evaluation fail with `InvalidSearchValue`, whatever the other
/// filters and the other records are.
pub proof fn lemma_unsearchable_field(items: Seq<JsonV>, criteria: Seq<Criterion>, i: int, k: int)
    requires
        0 <= i < items.len(),
        0 <= k < criteria.len(),
        items[i] is Object,
        unsearchable(items[i], criteria[k]),
    ensures
        filter_items(items, criteria) == Err::<Seq<JsonV>, Failure>(Failure::InvalidSearchValue),
    decreases items.len(),
{
    lemma_filter_failure_kind(items, criteria);
    if i < items.len() - 1 {
        let d = items.drop_last();
        assert(d[i] == items[i]);
        lemma_unsearchable_field(d, criteria, i, k);
    } else {
        assert(matches_all(items.last(), criteria) is Err);
    }
}

/// Listing a collection with a filter on a field that holds an array or an
/// object in some record fails with `InvalidSearchValue`.
pub proof fn lemma_filter_on_nested_value(
    doc: JsonV,
    name: Seq<char>,
    params: Seq<(Seq<char>, Seq<char>)>,
    i: int,
    k: int,
)
    requires
        resource(doc, name) is Some,
        criteria_of(params) is Ok,
        0 <= i < collection(doc, name).len(),
        0 <= k < criteria_of(params)->Ok_0.len(),
        collection(doc, name)[i] is Object,
        unsearchable(collection(doc, name)[i], criteria_of(params)->Ok_0[k]),
    ensures
        select_with_filter_result(doc, name, params) == Err::<JsonV, Failure>(
            Failure::InvalidSearchValue,
        ),
{
    lemma_unsearchable_field(collection(doc, name), criteria_of(params)->Ok_0, i, k);
}

} // verus!
