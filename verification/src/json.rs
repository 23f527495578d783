//! The JSON value model: executable values and their mathematical view.

use crate::text::{
    chars_of, key_lt, lemma_key_lt_asymmetric, lemma_key_lt_total, lemma_key_lt_transitive, order_of,
    KeyOrder,
};
use vstd::prelude::*;

verus! {

/// The mathematical value of a JSON text.
///
/// An object is the sequence of its members in the order in which they are
/// walked; a number is its canonical decimal text.
pub ghost enum JsonV {
    Null,
    Bool(bool),
    Number(Seq<char>),
    String(Seq<char>),
    Array(Seq<JsonV>),
    Object(Seq<(Seq<char>, JsonV)>),
}

/// The members of an object: pairs of a key and a value.
pub type Members = Seq<(Seq<char>, JsonV)>;

/// The keys ascend strictly, so none occurs twice.
pub open spec fn sorted(m: Members) -> bool {
    forall|i: int, j: int| 0 <= i < j < m.len() ==> key_lt(#[trigger] m[i].0, #[trigger] m[j].0)
}

/// Some member has the key.
pub open spec fn has_key(m: Members, key: Seq<char>) -> bool {
    exists|i: int| 0 <= i < m.len() && #[trigger] m[i].0 == key
}

/// The place of a member with the key, where there is one.
pub open spec fn key_index(m: Members, key: Seq<char>) -> int {
    choose|i: int| 0 <= i < m.len() && #[trigger] m[i].0 == key
}

/// The value under a key.
pub open spec fn member(m: Members, key: Seq<char>) -> Option<JsonV> {
    if has_key(m, key) {
        Some(m[key_index(m, key)].1)
    } else {
        None
    }
}

/// The number of keys that come before `key`: the place at which a new
/// member with that key enters.
pub open spec fn rank(m: Members, key: Seq<char>) -> int
    decreases m.len(),
{
    if m.len() == 0 {
        0
    } else if key_lt(m.last().0, key) {
        rank(m.drop_last(), key) + 1
    } else {
        rank(m.drop_last(), key)
    }
}

/// The members after `key` has been set to `value`: an existing member
/// gets the value, a new one enters in key order.
pub open spec fn put(m: Members, key: Seq<char>, value: JsonV) -> Members {
    if has_key(m, key) {
        m.update(key_index(m, key), (key, value))
    } else {
        m.insert(rank(m, key), (key, value))
    }
}

/// In sorted members a key has one place only.
pub proof fn lemma_key_place(m: Members, i: int)
    requires
        sorted(m),
        0 <= i < m.len(),
    ensures
        has_key(m, m[i].0),
        key_index(m, m[i].0) == i,
        member(m, m[i].0) == Some(m[i].1),
{
    let j = key_index(m, m[i].0);
    if i < j {
        lemma_key_lt_asymmetric(m[i].0, m[j].0);
    } else if j < i {
        lemma_key_lt_asymmetric(m[j].0, m[i].0);
    }
}

/// In sorted members the keys before place `r` come before `key` and those
/// from `r` on do not, then `r` is the rank of `key`.
pub proof fn lemma_rank(m: Members, key: Seq<char>, r: int)
    requires
        0 <= r <= m.len(),
        forall|i: int| 0 <= i < r ==> key_lt(#[trigger] m[i].0, key),
        forall|i: int| r <= i < m.len() ==> !key_lt(#[trigger] m[i].0, key),
    ensures
        rank(m, key) == r,
    decreases m.len(),
{
    if m.len() > 0 {
        let d = m.drop_last();
        assert(forall|i: int| 0 <= i < d.len() ==> d[i] == m[i]);
        if r == m.len() {
            assert(key_lt(m[m.len() - 1].0, key));
            lemma_rank(d, key, r - 1);
        } else {
            assert(!key_lt(m[m.len() - 1].0, key));
            lemma_rank(d, key, r);
        }
    }
}

/// The members of `m` after every member of `other` has been set in it, in
/// the order of `other`: a shallow merge in which `other` wins.
pub open spec fn merge(m: Members, other: Members) -> Members
    decreases other.len(),
{
    if other.len() == 0 {
        m
    } else {
        put(merge(m, other.drop_last()), other.last().0, other.last().1)
    }
}

/// The object in which the pairs have been set one after the other.
pub open spec fn object_of(pairs: Members) -> JsonV {
    JsonV::Object(merge(Members::empty(), pairs))
}

impl JsonV {
    /// The value is an array or an object: it can stand for a resource.
    pub open spec fn is_resource(self) -> bool {
        self is Array || self is Object
    }

    /// The value under a key of an object; nothing for any other value.
    pub open spec fn field(self, key: Seq<char>) -> Option<JsonV> {
        match self {
            JsonV::Object(m) => member(m, key),
            _ => None,
        }
    }

    /// Every object in the value, at any depth, has its keys in strictly
    /// ascending order.
    pub open spec fn wf(self) -> bool
        decreases self,
    {
        match self {
            JsonV::Array(items) => forall|i: int| 0 <= i < items.len() ==> (#[trigger] items[i]).wf(),
            JsonV::Object(m) => sorted(m) && forall|i: int|
                0 <= i < m.len() ==> (#[trigger] m[i]).1.wf(),
            _ => true,
        }
    }
}

/// Setting a key keeps the members sorted.
pub proof fn lemma_put_sorted(m: Members, key: Seq<char>, value: JsonV)
    requires
        sorted(m),
    ensures
        sorted(put(m, key, value)),
{
    let n = put(m, key, value);
    if has_key(m, key) {
        let k = key_index(m, key);
        assert forall|i: int, j: int| 0 <= i < j < n.len() implies key_lt(
            #[trigger] n[i].0,
            #[trigger] n[j].0,
        ) by {
            assert(n[i].0 == m[i].0);
            assert(n[j].0 == m[j].0);
        }
    } else {
        let r = rank(m, key);
        lemma_rank_bounds(m, key);
        assert forall|i: int, j: int| 0 <= i < j < n.len() implies key_lt(
            #[trigger] n[i].0,
            #[trigger] n[j].0,
        ) by {
            if j < r {
                assert(n[i] == m[i] && n[j] == m[j]);
            } else if j == r {
                assert(n[i] == m[i]);
            } else if i < r {
                assert(n[i] == m[i] && n[j] == m[j - 1]);
            } else if i == r {
                assert(n[j] == m[j - 1]);
            } else {
                assert(n[i] == m[i - 1] && n[j] == m[j - 1]);
            }
        }
    }
}

/// After a key has been set, the key leads to the new value and every other
/// key to what it led to before.
pub proof fn lemma_put_member(m: Members, key: Seq<char>, value: JsonV, other: Seq<char>)
    requires
        sorted(m),
    ensures
        has_key(put(m, key, value), other) == (other == key || has_key(m, other)),
        member(put(m, key, value), other) == if other == key {
            Some(value)
        } else {
            member(m, other)
        },
{
    let n = put(m, key, value);
    lemma_put_sorted(m, key, value);
    if has_key(m, key) {
        let i = key_index(m, key);
        assert(n[i] == (key, value));
        lemma_key_place(n, i);
        if other != key {
            if has_key(m, other) {
                let j = key_index(m, other);
                assert(n[j] == m[j]);
                lemma_key_place(n, j);
                lemma_key_place(m, j);
            } else if has_key(n, other) {
                let w = key_index(n, other);
                assert(m[w].0 == other);
            }
        }
    } else {
        let r = rank(m, key);
        lemma_rank_bounds(m, key);
        assert(n[r] == (key, value));
        lemma_key_place(n, r);
        if other != key {
            if has_key(m, other) {
                let j = key_index(m, other);
                let j2 = if j < r {
                    j
                } else {
                    j + 1
                };
                assert(n[j2] == m[j]);
                lemma_key_place(n, j2);
                lemma_key_place(m, j);
            } else if has_key(n, other) {
                let w = key_index(n, other);
                if w < r {
                    assert(m[w].0 == other);
                } else {
                    assert(m[w - 1].0 == other);
                }
            }
        }
    }
}

/// After a merge every key of `other` leads to what it leads to in `other`,
/// and every further key to what it led to before.
pub proof fn lemma_merge_member(m: Members, other: Members, key: Seq<char>)
    requires
        sorted(m),
        sorted(other),
    ensures
        sorted(merge(m, other)),
        has_key(merge(m, other), key) == (has_key(other, key) || has_key(m, key)),
        member(merge(m, other), key) == if has_key(other, key) {
            member(other, key)
        } else {
            member(m, key)
        },
    decreases other.len(),
{
    if other.len() > 0 {
        let rest = other.drop_last();
        let last = other.last();
        assert(forall|i: int| 0 <= i < rest.len() ==> rest[i] == other[i]);
        lemma_merge_member(m, rest, key);
        lemma_put_sorted(merge(m, rest), last.0, last.1);
        lemma_put_member(merge(m, rest), last.0, last.1, key);
        lemma_key_place(other, other.len() - 1);
        if key != last.0 {
            if has_key(rest, key) {
                let j = key_index(rest, key);
                assert(other[j].0 == key);
                lemma_key_place(other, j);
                lemma_key_place(rest, j);
            } else if has_key(other, key) {
                let w = key_index(other, key);
                assert(rest[w].0 == key);
            }
        }
    }
}

/// In sorted members the keys before the rank of `key` come before it, and
/// those from the rank on come after it or are the key itself.
pub proof fn lemma_rank_bounds(m: Members, key: Seq<char>)
    requires
        sorted(m),
    ensures
        0 <= rank(m, key) <= m.len(),
        forall|i: int| 0 <= i < rank(m, key) ==> key_lt(#[trigger] m[i].0, key),
        forall|i: int| rank(m, key) <= i < m.len() ==> !key_lt(#[trigger] m[i].0, key),
        !has_key(m, key) ==> forall|i: int|
            rank(m, key) <= i < m.len() ==> key_lt(key, #[trigger] m[i].0),
    decreases m.len(),
{
    if m.len() > 0 {
        let d = m.drop_last();
        assert(forall|i: int| 0 <= i < d.len() ==> d[i] == m[i]);
        assert(sorted(d));
        lemma_rank_bounds(d, key);
        let last = m.len() - 1;
        if key_lt(m[last].0, key) {
            assert forall|i: int| 0 <= i < rank(m, key) implies key_lt(#[trigger] m[i].0, key) by {
                if i < last {
                    assert(key_lt(m[i].0, m[last].0));
                    lemma_key_lt_transitive(m[i].0, m[last].0, key);
                }
            }
        }
        if !has_key(m, key) {
            assert(!has_key(d, key)) by {
                if has_key(d, key) {
                    let w = key_index(d, key);
                    assert(m[w].0 == key);
                }
            }
            assert forall|i: int| rank(m, key) <= i < m.len() implies key_lt(
                key,
                #[trigger] m[i].0,
            ) by {
                if i == last {
                    assert(m[last].0 != key);
                    lemma_key_lt_total(m[last].0, key);
                }
            }
        }
    }
}

/// An executable JSON value.
#[derive(Debug, PartialEq, Eq)]
pub enum Json {
    Null,
    Bool(bool),
    Number(String),
    String(String),
    Array(Vec<Json>),
    Object(JsonMap),
}

/// The members of a JSON object, held in ascending order of their keys.
#[derive(Debug, PartialEq, Eq)]
pub struct JsonMap {
    entries: Vec<(String, Json)>,
}

impl Json {
    /// The mathematical value of the executable one.
    pub open spec fn view(&self) -> JsonV
        decreases self,
    {
        match self {
            Json::Null => JsonV::Null,
            Json::Bool(b) => JsonV::Bool(*b),
            Json::Number(t) => JsonV::Number(t@),
            Json::String(s) => JsonV::String(s@),
            Json::Array(items) => JsonV::Array(items_view(items@)),
            Json::Object(m) => JsonV::Object(m.view()),
        }
    }
}

/// The view of a list of values.
pub open spec fn items_view(items: Seq<Json>) -> Seq<JsonV>
    decreases items,
{
    Seq::new(items.len(), |i: int| if 0 <= i < items.len() { items[i].view() } else { JsonV::Null })
}

/// The view of a list of members.
pub open spec fn members_view(entries: Seq<(String, Json)>) -> Members
    decreases entries,
{
    Seq::new(
        entries.len(),
        |i: int|
            if 0 <= i < entries.len() {
                (entries[i].0@, entries[i].1.view())
            } else {
                (Seq::empty(), JsonV::Null)
            },
    )
}

impl JsonMap {
    /// The members as pairs of a key and a value, in ascending key order.
    pub closed spec fn view(&self) -> Members
        decreases self,
    {
        members_view(self.entries@)
    }
}

impl Json {
    /// A deep copy of the value.
    pub fn duplicate(&self) -> (r: Json)
        ensures
            r@ == self@,
        decreases self,
    {
        match self {
            Json::Null => Json::Null,
            Json::Bool(b) => Json::Bool(*b),
            Json::Number(t) => Json::Number(t.clone()),
            Json::String(s) => Json::String(s.clone()),
            Json::Array(items) => Json::Array(duplicate_items(items)),
            Json::Object(m) => Json::Object(m.duplicate()),
        }
    }
}

/// A deep copy of a list of values.
pub fn duplicate_items(items: &Vec<Json>) -> (r: Vec<Json>)
    ensures
        items_view(r@) == items_view(items@),
        r@.len() == items@.len(),
        forall|j: int| 0 <= j < items@.len() ==> (#[trigger] r@[j])@ == items@[j]@,
    decreases items,
{
    let mut out: Vec<Json> = Vec::new();
    let mut i: usize = 0;
    while i < items.len()
        invariant
            i <= items.len(),
            out@.len() == i,
            forall|j: int| 0 <= j < i ==> out@[j]@ == items@[j]@,
        decreases items.len() - i,
    {
        out.push(items[i].duplicate());
        i += 1;
    }
    assert(items_view(out@) =~= items_view(items@));
    out
}

impl JsonMap {
    #[verifier::type_invariant]
    spec fn keys_ascend(self) -> bool {
        sorted(self@)
    }

    /// Shows that the keys of the map ascend strictly.
    pub fn keys_sorted(&self)
        ensures
            sorted(self@),
    {
        proof {
            use_type_invariant(self);
        }
    }

    /// A map without members.
    pub fn new() -> (r: JsonMap)
        ensures
            r@ == Members::empty(),
    {
        let r = JsonMap { entries: Vec::new() };
        assert(r@ =~= Members::empty());
        r
    }

    /// The number of members.
    pub fn len(&self) -> (r: usize)
        ensures
            r == self@.len(),
    {
        self.entries.len()
    }

    /// The key of the member at place `i`.
    pub fn key_at(&self, i: usize) -> (r: &String)
        requires
            i < self@.len(),
        ensures
            r@ == self@[i as int].0,
    {
        &self.entries[i].0
    }

    /// The value of the member at place `i`.
    pub fn value_at(&self, i: usize) -> (r: &Json)
        requires
            i < self@.len(),
        ensures
            r@ == self@[i as int].1,
    {
        &self.entries[i].1
    }

    /// The place of the first key that does not come before `key`.
    fn slot(&self, key: &Vec<char>) -> (r: (usize, bool))
        ensures
            r.0 == rank(self@, key@),
            r.0 <= self@.len(),
            r.1 == has_key(self@, key@),
            r.1 ==> r.0 < self@.len() && r.0 == key_index(self@, key@),
    {
        proof {
            use_type_invariant(self);
        }
        let mut i: usize = 0;
        let mut found = false;
        let mut done = false;
        while !done && i < self.entries.len()
            invariant
                sorted(self@),
                self@.len() == self.entries@.len(),
                i <= self.entries.len(),
                forall|j: int| 0 <= j < i ==> key_lt(#[trigger] self@[j].0, key@),
                done ==> i < self.entries.len() && !key_lt(self@[i as int].0, key@),
                found ==> done && self@[i as int].0 == key@,
                done && !found ==> key_lt(key@, self@[i as int].0),
            decreases (if done { 0int } else { 1int }), self.entries.len() - i,
        {
            let k = chars_of(self.entries[i].0.as_str());
            match order_of(&k, key) {
                KeyOrder::Before => {
                    i += 1;
                },
                KeyOrder::Same => {
                    found = true;
                    done = true;
                },
                KeyOrder::After => {
                    done = true;
                },
            }
        }
        proof {
            let m = self@;
            assert forall|j: int| i <= j < m.len() implies !key_lt(#[trigger] m[j].0, key@) by {
                if j > i {
                    if key_lt(m[j].0, key@) {
                        assert(key_lt(m[i as int].0, m[j].0));
                        lemma_key_lt_transitive(m[i as int].0, m[j].0, key@);
                    }
                }
            }
            lemma_rank(m, key@, i as int);
            if found {
                lemma_key_place(m, i as int);
            } else {
                assert forall|j: int| 0 <= j < m.len() implies m[j].0 != key@ by {
                    if j < i {
                        lemma_key_lt_asymmetric(m[j].0, key@);
                    } else {
                        if j > i {
                            assert(key_lt(m[i as int].0, m[j].0));
                            lemma_key_lt_transitive(key@, m[i as int].0, m[j].0);
                        }
                        lemma_key_lt_asymmetric(key@, m[j].0);
                    }
                }
            }
        }
        (i, found)
    }

    /// The place of the member with the key.
    pub fn find(&self, key: &str) -> (r: Option<usize>)
        ensures
            match r {
                Some(i) => has_key(self@, key@) && i == key_index(self@, key@) && i < self@.len(),
                None => !has_key(self@, key@),
            },
    {
        let k = chars_of(key);
        let (i, found) = self.slot(&k);
        if found {
            Some(i)
        } else {
            None
        }
    }

    /// The value under the key.
    pub fn get(&self, key: &str) -> (r: Option<&Json>)
        ensures
            match r {
                Some(v) => member(self@, key@) == Some(v@),
                None => member(self@, key@) is None,
            },
    {
        match self.find(key) {
            Some(i) => Some(&self.entries[i].1),
            None => None,
        }
    }

    /// Sets the key to the value: an existing member gets the value, a new
    /// one enters in key order.
    pub fn insert(&mut self, key: String, value: Json)
        ensures
            final(self)@ == put(old(self)@, key@, value@),
    {
        let k = chars_of(key.as_str());
        let (i, found) = self.slot(&k);
        proof {
            use_type_invariant(&*self);
        }
        let ghost before = self@;
        let mut taken = JsonMap::new();
        core::mem::swap(self, &mut taken);
        let mut entries = taken.entries;
        if found {
            entries[i] = (key, value);
        } else {
            entries.insert(i, (key, value));
        }
        proof {
            if found {
                assert(members_view(entries@) =~= before.update(i as int, (key@, value@)));
            } else {
                assert(members_view(entries@) =~= before.insert(i as int, (key@, value@)));
            }
            lemma_put_sorted(before, key@, value@);
        }
        *self = JsonMap { entries };
    }

    /// A deep copy of the members.
    pub fn duplicate(&self) -> (r: JsonMap)
        ensures
            r@ == self@,
        decreases self,
    {
        let mut out: Vec<(String, Json)> = Vec::new();
        let mut i: usize = 0;
        while i < self.entries.len()
            invariant
                i <= self.entries.len(),
                out@.len() == i,
                forall|j: int| 0 <= j < i ==> out@[j].0@ == self.entries@[j].0@ && out@[j].1@ == self.entries@[j].1@,
            decreases self.entries.len() - i,
        {
            out.push((self.entries[i].0.clone(), self.entries[i].1.duplicate()));
            i += 1;
        }
        proof {
            use_type_invariant(self);
            assert(members_view(out@) =~= self@);
        }
        JsonMap { entries: out }
    }
}

impl Json {
    /// A JSON string.
    pub fn text(s: &str) -> (r: Json)
        ensures
            r@ == JsonV::String(s@),
    {
        Json::String(s.to_owned())
    }

    /// A JSON number, given by its canonical decimal text.
    pub fn number(s: &str) -> (r: Json)
        ensures
            r@ == JsonV::Number(s@),
    {
        Json::Number(s.to_owned())
    }

    /// A JSON array of the items.
    pub fn array(items: Vec<Json>) -> (r: Json)
        ensures
            r@ == JsonV::Array(items_view(items@)),
    {
        Json::Array(items)
    }

    /// A JSON object in which the pairs have been set one after the other.
    pub fn object(pairs: Vec<(&str, Json)>) -> (r: Json)
        ensures
            r@ == object_of(pairs_view(pairs@)),
    {
        Json::Object(JsonMap::from_pairs(pairs))
    }

    /// Tells whether the value is an array.
    pub fn is_array(&self) -> (r: bool)
        ensures
            r == (self@ is Array),
    {
        match self {
            Json::Array(_) => true,
            _ => false,
        }
    }

    /// Tells whether the value is an object.
    pub fn is_object(&self) -> (r: bool)
        ensures
            r == (self@ is Object),
    {
        match self {
            Json::Object(_) => true,
            _ => false,
        }
    }

    /// The items of an array.
    pub fn as_array(&self) -> (r: Option<&Vec<Json>>)
        ensures
            match r {
                Some(items) => self@ == JsonV::Array(items_view(items@)),
                None => !(self@ is Array),
            },
    {
        match self {
            Json::Array(items) => Some(items),
            _ => None,
        }
    }

    /// The members of an object.
    pub fn as_object(&self) -> (r: Option<&JsonMap>)
        ensures
            match r {
                Some(m) => self@ == JsonV::Object(m@),
                None => !(self@ is Object),
            },
    {
        match self {
            Json::Object(m) => Some(m),
            _ => None,
        }
    }

    /// The value under a key of an object; nothing for any other value.
    pub fn get(&self, key: &str) -> (r: Option<&Json>)
        ensures
            match r {
                Some(v) => self@.field(key@) == Some(v@),
                None => self@.field(key@) is None,
            },
    {
        match self {
            Json::Object(m) => m.get(key),
            _ => None,
        }
    }

    /// Shows that every object in the value has its keys in ascending order.
    pub fn keys_sorted(&self)
        ensures
            self@.wf(),
        decreases self,
    {
        match self {
            Json::Array(items) => {
                items_sorted(items);
                assert(items_view(items@).len() == items@.len());
            },
            Json::Object(m) => {
                m.members_sorted();
            },
            _ => {},
        }
    }
}

/// Shows that every object in the items has its keys in ascending order.
pub fn items_sorted(items: &Vec<Json>)
    ensures
        forall|i: int| 0 <= i < items@.len() ==> (#[trigger] items_view(items@)[i]).wf(),
    decreases items,
{
    let mut i: usize = 0;
    while i < items.len()
        invariant
            i <= items.len(),
            forall|j: int| 0 <= j < i ==> (#[trigger] items_view(items@)[j]).wf(),
        decreases items.len() - i,
    {
        items[i].keys_sorted();
        i += 1;
    }
}

/// The view of a list of pairs.
pub open spec fn pairs_view(pairs: Seq<(&str, Json)>) -> Members {
    Seq::new(pairs.len(), |i: int| (pairs[i].0@, pairs[i].1@))
}

impl JsonMap {
    /// Shows that every object in the members, and the map itself, has its
    /// keys in ascending order.
    pub fn members_sorted(&self)
        ensures
            JsonV::Object(self@).wf(),
        decreases self,
    {
        proof {
            use_type_invariant(self);
        }
        let mut i: usize = 0;
        while i < self.entries.len()
            invariant
                i <= self.entries.len(),
                self@.len() == self.entries@.len(),
                forall|j: int| 0 <= j < i ==> (#[trigger] self@[j]).1.wf(),
            decreases self.entries.len() - i,
        {
            self.entries[i].1.keys_sorted();
            i += 1;
        }
    }

    /// The map in which the pairs have been set one after the other.
    pub fn from_pairs(pairs: Vec<(&str, Json)>) -> (r: JsonMap)
        ensures
            r@ == merge(Members::empty(), pairs_view(pairs@)),
    {
        let mut out = JsonMap::new();
        let mut i: usize = 0;
        while i < pairs.len()
            invariant
                i <= pairs.len(),
                out@ == merge(Members::empty(), pairs_view(pairs@).subrange(0, i as int)),
            decreases pairs.len() - i,
        {
            proof {
                let next = pairs_view(pairs@).subrange(0, i + 1);
                assert(next.drop_last() =~= pairs_view(pairs@).subrange(0, i as int));
            }
            out.insert(pairs[i].0.to_owned(), pairs[i].1.duplicate());
            i += 1;
        }
        assert(pairs_view(pairs@).subrange(0, i as int) =~= pairs_view(pairs@));
        out
    }

    /// Sets every member of `other` in the map: a shallow merge in which
    /// `other` wins.
    pub fn extend(&mut self, other: &JsonMap)
        ensures
            final(self)@ == merge(old(self)@, other@),
    {
        let mut i: usize = 0;
        while i < other.len()
            invariant
                i <= other@.len(),
                self@ == merge(old(self)@, other@.subrange(0, i as int)),
            decreases other@.len() - i,
        {
            proof {
                let next = other@.subrange(0, i + 1);
                assert(next.drop_last() =~= other@.subrange(0, i as int));
            }
            self.insert(other.key_at(i).clone(), other.value_at(i).duplicate());
            i += 1;
        }
        assert(other@.subrange(0, i as int) =~= other@);
    }
}

impl Clone for Json {
    /// A deep copy of the value.
    fn clone(&self) -> (r: Json)
        ensures
            r@ == self@,
    {
        self.duplicate()
    }
}

impl Clone for JsonMap {
    /// A deep copy of the members.
    fn clone(&self) -> (r: JsonMap)
        ensures
            r@ == self@,
    {
        self.duplicate()
    }
}

} // verus!
