//! Listing the records of a collection that meet a set of filters.

use crate::error::{outcome, Failure, MocksError};
use crate::json::{items_view, Json, JsonV};
use crate::storage::operation::{build_search_resource_key, resource, same_text};
use crate::text::{
    chars_of, contains, ends_with, find_last, has_part, has_prefix, has_suffix, last_index,
    lemma_last_index, lowercase, lowercase_text, same_chars, starts_with,
};
use vstd::prelude::*;

verus! {

/// How the text of a field is held against the text of a filter.
#[derive(Debug, Clone, Copy, PartialEq, Eq, Structural)]
pub enum MatchType {
    Exact,
    StartsWith,
    EndsWith,
    Contains,
}

/// One filter: a field, the kind of match, and the text to match.
#[derive(Debug, Clone)]
pub struct FilterCriteria {
    pub field_name: String,
    pub match_type: MatchType,
    pub value: String,
}

/// The mathematical value of a filter.
pub ghost struct Criterion {
    pub field_name: Seq<char>,
    pub match_type: MatchType,
    pub value: Seq<char>,
}

impl View for FilterCriteria {
    type V = Criterion;

    open spec fn view(&self) -> Criterion {
        Criterion { field_name: self.field_name@, match_type: self.match_type, value: self.value@ }
    }
}

/// The views of a list of filters.
pub open spec fn criteria_view(criteria: Seq<FilterCriteria>) -> Seq<Criterion> {
    Seq::new(criteria.len(), |i: int| criteria[i]@)
}

/// The views of a list of pairs of a filter key and a filter text.
pub open spec fn params_view(params: Seq<(String, String)>) -> Seq<(Seq<char>, Seq<char>)> {
    Seq::new(params.len(), |i: int| (params[i].0@, params[i].1@))
}

/// The kind of match that a keyword names.
pub open spec fn match_type_of(s: Seq<char>) -> Option<MatchType> {
    if s == "exact"@ {
        Some(MatchType::Exact)
    } else if s == "startswith"@ {
        Some(MatchType::StartsWith)
    } else if s == "endswith"@ {
        Some(MatchType::EndsWith)
    } else if s == "contains"@ {
        Some(MatchType::Contains)
    } else {
        None
    }
}

/// The filter that a key and a text stand for: the keyword after the last
/// `.` of the key names the kind of match, and the text before it the field.
pub open spec fn criterion_of(key: Seq<char>, value: Seq<char>) -> Result<Criterion, Failure> {
    let dot = last_index(key, '.');
    if dot < 0 {
        Err(Failure::MatchTypeRequired)
    } else {
        match match_type_of(key.subrange(dot + 1, key.len() as int)) {
            Some(t) => Ok(Criterion { field_name: key.subrange(0, dot), match_type: t, value }),
            None => Err(Failure::InvalidMatchType),
        }
    }
}

/// The filters that a list of pairs stands for, or the failure of the first
/// pair that stands for none.
pub open spec fn criteria_of(params: Seq<(Seq<char>, Seq<char>)>) -> Result<Seq<Criterion>, Failure>
    decreases params.len(),
{
    if params.len() == 0 {
        Ok(Seq::empty())
    } else {
        match criteria_of(params.drop_last()) {
            Err(e) => Err(e),
            Ok(found) => match criterion_of(params.last().0, params.last().1) {
                Ok(c) => Ok(found.push(c)),
                Err(e) => Err(e),
            },
        }
    }
}

/// The text by which a value is searched: that of a string or a number,
/// `true` or `false`, or `null`. An array or an object has none.
pub open spec fn search_text(v: JsonV) -> Option<Seq<char>> {
    match v {
        JsonV::String(s) => Some(s),
        JsonV::Number(t) => Some(t),
        JsonV::Bool(b) => Some(
            if b {
                "true"@
            } else {
                "false"@
            },
        ),
        JsonV::Null => Some("null"@),
        _ => None,
    }
}

/// The text of a field meets the text of a filter, both taken in lower case.
pub open spec fn text_matches(t: MatchType, field: Seq<char>, wanted: Seq<char>) -> bool {
    let f = lowercase_text(field);
    let w = lowercase_text(wanted);
    match t {
        MatchType::Exact => f == w,
        MatchType::StartsWith => starts_with(f, w),
        MatchType::EndsWith => ends_with(f, w),
        MatchType::Contains => contains(f, w),
    }
}

/// The filter names a field of the record that holds an array or an object:
/// such a field cannot be searched.
pub open spec fn unsearchable(record: JsonV, c: Criterion) -> bool {
    match record.field(c.field_name) {
        Some(v) => search_text(v) is None,
        None => false,
    }
}

/// The record meets the filter: it has the field, and the text of the field
/// meets the text of the filter. A missing field never does.
pub open spec fn meets(record: JsonV, c: Criterion) -> bool {
    match record.field(c.field_name) {
        Some(v) => match search_text(v) {
            Some(t) => text_matches(c.match_type, t, c.value),
            None => false,
        },
        None => false,
    }
}

/// Whether a record meets every filter. A value that is no object meets
/// none; an object on which some filter cannot be tried makes the whole
/// evaluation fail, whatever the other filters say.
pub open spec fn matches_all(record: JsonV, criteria: Seq<Criterion>) -> Result<bool, Failure> {
    if !(record is Object) {
        Ok(false)
    } else if exists|k: int| 0 <= k < criteria.len() && unsearchable(record, #[trigger] criteria[k]) {
        Err(Failure::InvalidSearchValue)
    } else {
        Ok(forall|k: int| 0 <= k < criteria.len() ==> meets(record, #[trigger] criteria[k]))
    }
}

/// The records that meet every filter, in their order; the evaluation fails
/// where it fails on some record.
pub open spec fn filter_items(items: Seq<JsonV>, criteria: Seq<Criterion>) -> Result<
    Seq<JsonV>,
    Failure,
>
    decreases items.len(),
{
    if items.len() == 0 {
        Ok(Seq::empty())
    } else {
        match filter_items(items.drop_last(), criteria) {
            Err(e) => Err(e),
            Ok(kept) => match matches_all(items.last(), criteria) {
                Err(e) => Err(e),
                Ok(true) => Ok(kept.push(items.last())),
                Ok(false) => Ok(kept),
            },
        }
    }
}

/// What listing with filters gives: for a collection the records that meet
/// every filter; for a singleton the object itself, where no filter is given.
pub open spec fn select_with_filter_result(
    doc: JsonV,
    name: Seq<char>,
    params: Seq<(Seq<char>, Seq<char>)>,
) -> Result<JsonV, Failure> {
    match resource(doc, name) {
        None => Err(Failure::ResourceNotFound),
        Some(v) => match criteria_of(params) {
            Err(e) => Err(e),
            Ok(criteria) => match v {
                JsonV::Array(items) => match filter_items(items, criteria) {
                    Ok(kept) => Ok(JsonV::Array(kept)),
                    Err(e) => Err(e),
                },
                JsonV::Object(_) => if params.len() == 0 {
                    Ok(v)
                } else {
                    Err(Failure::QueryParamsNotAllowed)
                },
                _ => Err(Failure::ResourceNotFound),
            },
        },
    }
}

impl MatchType {
    /// The kind of match that a keyword names.
    pub fn from_str(s: &str) -> (r: Result<MatchType, MocksError>)
        ensures
            match r {
                Ok(t) => match_type_of(s@) == Some(t),
                Err(e) => match_type_of(s@) is None && e@ == Failure::InvalidMatchType,
            },
    {
        if same_text(s, "exact") {
            Ok(MatchType::Exact)
        } else if same_text(s, "startswith") {
            Ok(MatchType::StartsWith)
        } else if same_text(s, "endswith") {
            Ok(MatchType::EndsWith)
        } else if same_text(s, "contains") {
            Ok(MatchType::Contains)
        } else {
            Err(MocksError::InvalidMatchType)
        }
    }
}

/// The filter that a key and a text stand for.
pub fn parse_criterion(key: &str, value: &str) -> (r: Result<FilterCriteria, MocksError>)
    ensures
        match r {
            Ok(c) => criterion_of(key@, value@) == Ok::<Criterion, Failure>(c@),
            Err(e) => criterion_of(key@, value@) == Err::<Criterion, Failure>(e@),
        },
{
    let k = chars_of(key);
    proof {
        lemma_last_index(k@, '.');
    }
    match find_last(&k, '.') {
        None => Err(MocksError::MatchTypeRequired),
        Some(dot) => {
            let n: usize = k.len();
            let keyword = key.substring_char(dot + 1, n);
            match MatchType::from_str(keyword) {
                Ok(t) => Ok(
                    FilterCriteria {
                        field_name: key.substring_char(0, dot).to_owned(),
                        match_type: t,
                        value: value.to_owned(),
                    },
                ),
                Err(e) => Err(e),
            }
        },
    }
}

/// The filters that a list of pairs of a key and a text stands for.
pub fn parse_query_params(params: &Vec<(String, String)>) -> (r: Result<
    Vec<FilterCriteria>,
    MocksError,
>)
    ensures
        match r {
            Ok(criteria) => criteria_of(params_view(params@)) == Ok::<Seq<Criterion>, Failure>(
                criteria_view(criteria@),
            ),
            Err(e) => criteria_of(params_view(params@)) == Err::<Seq<Criterion>, Failure>(e@),
        },
{
    let ghost all = params_view(params@);
    let mut criteria: Vec<FilterCriteria> = Vec::new();
    let mut i: usize = 0;
    assert(all.subrange(0, 0) =~= Seq::empty());
    assert(criteria_view(criteria@) =~= Seq::empty());
    while i < params.len()
        invariant
            i <= params.len(),
            all == params_view(params@),
            criteria_of(all.subrange(0, i as int)) == Ok::<Seq<Criterion>, Failure>(
                criteria_view(criteria@),
            ),
        decreases params.len() - i,
    {
        proof {
            let next = all.subrange(0, i + 1);
            assert(next.drop_last() =~= all.subrange(0, i as int));
            assert(next.last() == (params@[i as int].0@, params@[i as int].1@));
        }
        let ghost before = criteria@;
        match parse_criterion(params[i].0.as_str(), params[i].1.as_str()) {
            Ok(c) => {
                criteria.push(c);
                assert(criteria_view(criteria@) =~= criteria_view(before).push(c@));
            },
            Err(e) => {
                proof {
                    lemma_criteria_failure(all, i + 1);
                }
                return Err(e);
            },
        }
        i += 1;
    }
    assert(all.subrange(0, i as int) =~= all);
    Ok(criteria)
}

/// A failure among the first `n` pairs is the failure of the whole list.
pub proof fn lemma_criteria_failure(params: Seq<(Seq<char>, Seq<char>)>, n: int)
    requires
        0 <= n <= params.len(),
        criteria_of(params.subrange(0, n)) is Err,
    ensures
        criteria_of(params) == criteria_of(params.subrange(0, n)),
    decreases params.len() - n,
{
    if n < params.len() {
        let next = params.subrange(0, n + 1);
        assert(next.drop_last() =~= params.subrange(0, n));
        lemma_criteria_failure(params, n + 1);
    } else {
        assert(params.subrange(0, n) =~= params);
    }
}

/// The text by which a value is searched.
pub fn value_to_search_string(value: &Json) -> (r: Result<String, MocksError>)
    ensures
        match r {
            Ok(s) => search_text(value@) == Some(s@),
            Err(e) => search_text(value@) is None && e@ == Failure::InvalidSearchValue,
        },
{
    match value {
        Json::String(s) => Ok(s.clone()),
        Json::Number(t) => Ok(t.clone()),
        Json::Bool(b) => if *b {
            Ok("true".to_owned())
        } else {
            Ok("false".to_owned())
        },
        Json::Null => Ok("null".to_owned()),
        _ => Err(MocksError::InvalidSearchValue),
    }
}

/// Tells whether the text of a field meets the text of a filter.
pub fn field_matches(t: MatchType, field: &str, wanted: &str) -> (r: bool)
    ensures
        r == text_matches(t, field@, wanted@),
{
    let f = chars_of(lowercase(field).as_str());
    let w = chars_of(lowercase(wanted).as_str());
    match t {
        MatchType::Exact => same_chars(&f, &w),
        MatchType::StartsWith => has_prefix(&f, &w),
        MatchType::EndsWith => has_suffix(&f, &w),
        MatchType::Contains => has_part(&f, &w),
    }
}

/// Tells whether a record meets every filter.
pub fn matches_filters(item: &Json, criteria: &Vec<FilterCriteria>) -> (r: Result<bool, MocksError>)
    ensures
        match r {
            Ok(b) => matches_all(item@, criteria_view(criteria@)) == Ok::<bool, Failure>(b),
            Err(e) => matches_all(item@, criteria_view(criteria@)) == Err::<bool, Failure>(e@),
        },
{
    if !item.is_object() {
        return Ok(false);
    }
    let ghost all = criteria_view(criteria@);
    let mut met = true;
    let mut i: usize = 0;
    while i < criteria.len()
        invariant
            i <= criteria.len(),
            item@ is Object,
            all == criteria_view(criteria@),
            forall|k: int| 0 <= k < i ==> !unsearchable(item@, #[trigger] all[k]),
            met == forall|k: int| 0 <= k < i ==> meets(item@, #[trigger] all[k]),
        decreases criteria.len() - i,
    {
        let criterion = &criteria[i];
        assert(all[i as int] == criterion@);
        match item.get(criterion.field_name.as_str()) {
            Some(field_value) => {
                let field_str = match value_to_search_string(field_value) {
                    Ok(s) => s,
                    Err(e) => {
                        assert(unsearchable(item@, all[i as int]));
                        return Err(e);
                    },
                };
                if !field_matches(criterion.match_type, field_str.as_str(), criterion.value.as_str()) {
                    assert(!meets(item@, all[i as int]));
                    met = false;
                }
            },
            None => {
                assert(!meets(item@, all[i as int]));
                met = false;
            },
        }
        i += 1;
    }
    Ok(met)
}

/// A failure among the first `n` records is the failure of the whole list.
pub proof fn lemma_filter_failure(items: Seq<JsonV>, criteria: Seq<Criterion>, n: int)
    requires
        0 <= n <= items.len(),
        filter_items(items.subrange(0, n), criteria) is Err,
    ensures
        filter_items(items, criteria) == filter_items(items.subrange(0, n), criteria),
    decreases items.len() - n,
{
    if n < items.len() {
        let next = items.subrange(0, n + 1);
        assert(next.drop_last() =~= items.subrange(0, n));
        lemma_filter_failure(items, criteria, n + 1);
    } else {
        assert(items.subrange(0, n) =~= items);
    }
}

/// The records that meet every filter, in their order.
pub fn filter_records(items: &Vec<Json>, criteria: &Vec<FilterCriteria>) -> (r: Result<
    Vec<Json>,
    MocksError,
>)
    ensures
        match r {
            Ok(kept) => filter_items(items_view(items@), criteria_view(criteria@)) == Ok::<
                Seq<JsonV>,
                Failure,
            >(items_view(kept@)),
            Err(e) => filter_items(items_view(items@), criteria_view(criteria@)) == Err::<
                Seq<JsonV>,
                Failure,
            >(e@),
        },
{
    let ghost all = items_view(items@);
    let ghost cs = criteria_view(criteria@);
    let mut kept: Vec<Json> = Vec::new();
    let mut i: usize = 0;
    assert(all.subrange(0, 0) =~= Seq::empty());
    assert(items_view(kept@) =~= Seq::empty());
    while i < items.len()
        invariant
            i <= items.len(),
            all == items_view(items@),
            cs == criteria_view(criteria@),
            filter_items(all.subrange(0, i as int), cs) == Ok::<Seq<JsonV>, Failure>(
                items_view(kept@),
            ),
        decreases items.len() - i,
    {
        proof {
            let next = all.subrange(0, i + 1);
            assert(next.drop_last() =~= all.subrange(0, i as int));
            assert(next.last() == items@[i as int]@);
        }
        let ghost before = kept@;
        match matches_filters(&items[i], criteria) {
            Ok(true) => {
                kept.push(items[i].duplicate());
                assert(items_view(kept@) =~= items_view(before).push(items@[i as int]@));
            },
            Ok(false) => {},
            Err(e) => {
                proof {
                    lemma_filter_failure(all, cs, i + 1);
                }
                return Err(e);
            },
        }
        i += 1;
    }
    assert(all.subrange(0, i as int) =~= all);
    Ok(kept)
}

/// Lists the records of the collection that meet every filter. A singleton
/// is listed as it stands, and takes no filter.
pub fn select_with_filter(data: &Json, resource_key: &str, filters: &Vec<(String, String)>) -> (r:
    Result<Json, MocksError>)
    ensures
        outcome(r) == select_with_filter_result(data@, resource_key@, params_view(filters@)),
{
    let search_resource_key = build_search_resource_key(data, resource_key);
    let resource_value = match data.get(search_resource_key.as_str()) {
        Some(v) => v,
        None => {
            return Err(MocksError::ResourceNotFound);
        },
    };
    let criteria = match parse_query_params(filters) {
        Ok(c) => c,
        Err(e) => {
            return Err(e);
        },
    };
    match resource_value {
        Json::Array(items) => match filter_records(items, &criteria) {
            Ok(kept) => Ok(Json::Array(kept)),
            Err(e) => Err(e),
        },
        Json::Object(_) => if filters.len() == 0 {
            Ok(resource_value.duplicate())
        } else {
            Err(MocksError::QueryParamsNotAllowed)
        },
        _ => Err(MocksError::ResourceNotFound),
    }
}

} // verus!
