//! Text helpers over sequences of characters: the order of object keys, the
//! last occurrence of a separator, and the match predicates of the filters.

use vstd::prelude::*;

verus! {

/// `a` comes before `b` at position `p`: the two agree before `p`, and there
/// `a` ends or holds the smaller character.
pub open spec fn key_lt_at(a: Seq<char>, b: Seq<char>, p: int) -> bool {
    &&& 0 <= p <= a.len()
    &&& p < b.len()
    &&& forall|j: int| 0 <= j < p ==> a[j] == b[j]
    &&& (p == a.len() || a[p] < b[p])
}

/// The lexicographic order of keys by character code, the order in which the
/// members of an object are held.
pub open spec fn key_lt(a: Seq<char>, b: Seq<char>) -> bool {
    exists|p: int| key_lt_at(a, b, p)
}

/// Of two keys at most one comes before the other.
pub proof fn lemma_key_lt_asymmetric(a: Seq<char>, b: Seq<char>)
    requires
        key_lt(a, b),
    ensures
        !key_lt(b, a),
        a != b,
{
    let p = choose|p: int| key_lt_at(a, b, p);
    if key_lt(b, a) {
        let q = choose|q: int| key_lt_at(b, a, q);
        if p < q {
            assert(b[p] == a[p]);
        } else if q < p {
            assert(a[q] == b[q]);
        }
    }
}

/// The order of keys is transitive.
pub proof fn lemma_key_lt_transitive(a: Seq<char>, b: Seq<char>, c: Seq<char>)
    requires
        key_lt(a, b),
        key_lt(b, c),
    ensures
        key_lt(a, c),
{
    let p = choose|p: int| key_lt_at(a, b, p);
    let q = choose|q: int| key_lt_at(b, c, q);
    let m = if p <= q { p } else { q };
    assert forall|j: int| 0 <= j < m implies a[j] == c[j] by {
        assert(a[j] == b[j]);
        assert(b[j] == c[j]);
    }
    if p < q {
        assert(b[p] == c[p]);
    }
    assert(key_lt_at(a, c, m));
}

/// Two different keys are ordered one way or the other.
pub proof fn lemma_key_lt_total(a: Seq<char>, b: Seq<char>)
    requires
        a != b,
    ensures
        key_lt(a, b) || key_lt(b, a),
{
    lemma_first_difference(a, b, 0);
}

/// Two keys that agree before `p` and differ are ordered at some position
/// from `p` on.
proof fn lemma_first_difference(a: Seq<char>, b: Seq<char>, p: int)
    requires
        a != b,
        0 <= p <= a.len(),
        p <= b.len(),
        forall|j: int| 0 <= j < p ==> a[j] == b[j],
    ensures
        key_lt(a, b) || key_lt(b, a),
    decreases a.len() - p,
{
    if p == a.len() {
        if p == b.len() {
            assert(a =~= b);
        } else {
            assert(key_lt_at(a, b, p));
        }
    } else if p == b.len() {
        assert(key_lt_at(b, a, p));
    } else if a[p] < b[p] {
        assert(key_lt_at(a, b, p));
    } else if b[p] < a[p] {
        assert(key_lt_at(b, a, p));
    } else {
        lemma_first_difference(a, b, p + 1);
    }
}

/// How two keys stand to each other.
#[derive(Debug, PartialEq, Eq, Clone, Copy, Structural)]
pub enum KeyOrder {
    Before,
    Same,
    After,
}

/// The characters of a string, one by one.
pub fn chars_of(s: &str) -> (r: Vec<char>)
    ensures
        r@ == s@,
{
    let n: usize = s.unicode_len();
    let mut out: Vec<char> = Vec::new();
    let mut i: usize = 0;
    while i < n
        invariant
            n == s@.len(),
            i <= n,
            out@ == s@.subrange(0, i as int),
        decreases n - i,
    {
        out.push(s.get_char(i));
        assert(out@ =~= s@.subrange(0, i + 1));
        i += 1;
    }
    assert(s@.subrange(0, n as int) =~= s@);
    out
}

/// Compares two keys in the order of `key_lt`.
pub fn order_of(a: &Vec<char>, b: &Vec<char>) -> (r: KeyOrder)
    ensures
        r == KeyOrder::Before <==> key_lt(a@, b@),
        r == KeyOrder::Same <==> a@ == b@,
        r == KeyOrder::After <==> key_lt(b@, a@),
{
    let mut i: usize = 0;
    let mut r = KeyOrder::Same;
    let mut decided = false;
    while !decided && i < a.len() && i < b.len()
        invariant
            i <= a.len(),
            i <= b.len(),
            forall|j: int| 0 <= j < i ==> a@[j] == b@[j],
            !decided ==> r == KeyOrder::Same,
            decided ==> (r == KeyOrder::Before && key_lt_at(a@, b@, i as int)) || (r
                == KeyOrder::After && key_lt_at(b@, a@, i as int)),
        decreases (if decided { 0int } else { 1int }), a.len() - i,
    {
        let x: char = a[i];
        let y: char = b[i];
        if x < y {
            r = KeyOrder::Before;
            decided = true;
        } else if y < x {
            r = KeyOrder::After;
            decided = true;
        } else {
            assert(a@[i as int] == b@[i as int]);
            i += 1;
        }
    }
    if !decided {
        if i < b.len() {
            r = KeyOrder::Before;
            assert(key_lt_at(a@, b@, i as int));
        } else if i < a.len() {
            r = KeyOrder::After;
            assert(key_lt_at(b@, a@, i as int));
        } else {
            assert(a@ =~= b@);
        }
    }
    proof {
        if key_lt(a@, b@) {
            lemma_key_lt_asymmetric(a@, b@);
        }
        if key_lt(b@, a@) {
            lemma_key_lt_asymmetric(b@, a@);
        }
    }
    r
}

/// The index of the last `c` in `s`, or -1 where there is none.
pub open spec fn last_index(s: Seq<char>, c: char) -> int
    decreases s.len(),
{
    if s.len() == 0 {
        -1
    } else if s.last() == c {
        s.len() - 1
    } else {
        last_index(s.drop_last(), c)
    }
}

/// `last_index` is in range, points at a `c`, and no `c` follows it.
pub proof fn lemma_last_index(s: Seq<char>, c: char)
    ensures
        -1 <= last_index(s, c) < s.len(),
        last_index(s, c) >= 0 ==> s[last_index(s, c)] == c,
        forall|j: int| last_index(s, c) < j < s.len() ==> s[j] != c,
    decreases s.len(),
{
    if s.len() > 0 && s.last() != c {
        lemma_last_index(s.drop_last(), c);
        assert forall|j: int| last_index(s, c) < j < s.len() implies s[j] != c by {
            if j < s.len() - 1 {
                assert(s.drop_last()[j] == s[j]);
            }
        }
    }
}

/// The text after the last `/` of a key: the whole key where it has none.
pub open spec fn final_segment(key: Seq<char>) -> Seq<char> {
    key.subrange(last_index(key, '/') + 1, key.len() as int)
}

/// The final segment of a key holds no `/`.
pub proof fn lemma_final_segment_flat(key: Seq<char>)
    ensures
        last_index(final_segment(key), '/') == -1,
{
    lemma_last_index(key, '/');
    let seg = final_segment(key);
    lemma_last_index(seg, '/');
    let k = last_index(seg, '/');
    if k >= 0 {
        assert(seg[k] == key[last_index(key, '/') + 1 + k]);
    }
}

/// `part` occurs in `s` at position `i`.
pub open spec fn occurs_at(s: Seq<char>, part: Seq<char>, i: int) -> bool {
    0 <= i && i + part.len() <= s.len() && s.subrange(i, i + part.len()) == part
}

/// `s` begins with `part`.
pub open spec fn starts_with(s: Seq<char>, part: Seq<char>) -> bool {
    occurs_at(s, part, 0)
}

/// `s` ends with `part`.
pub open spec fn ends_with(s: Seq<char>, part: Seq<char>) -> bool {
    occurs_at(s, part, s.len() - part.len())
}

/// `part` occurs somewhere in `s`.
pub open spec fn contains(s: Seq<char>, part: Seq<char>) -> bool {
    exists|i: int| occurs_at(s, part, i)
}

/// Finds the last `c` in `s`.
pub fn find_last(s: &Vec<char>, c: char) -> (r: Option<usize>)
    ensures
        match r {
            Some(i) => i as int == last_index(s@, c),
            None => last_index(s@, c) == -1,
        },
{
    let mut i: usize = s.len();
    assert(s@.subrange(0, i as int) =~= s@);
    while i > 0
        invariant
            i <= s.len(),
            last_index(s@, c) == last_index(s@.subrange(0, i as int), c),
        decreases i,
    {
        if s[i - 1] == c {
            return Some(i - 1);
        }
        assert(s@.subrange(0, i as int).drop_last() =~= s@.subrange(0, i - 1));
        i -= 1;
    }
    None
}

/// The characters of `s` from `from` up to `to`.
pub fn slice_of(s: &Vec<char>, from: usize, to: usize) -> (r: Vec<char>)
    requires
        from <= to <= s.len(),
    ensures
        r@ == s@.subrange(from as int, to as int),
{
    let mut out: Vec<char> = Vec::new();
    let mut i: usize = from;
    while i < to
        invariant
            from <= i <= to <= s.len(),
            out@ == s@.subrange(from as int, i as int),
        decreases to - i,
    {
        out.push(s[i]);
        assert(out@ =~= s@.subrange(from as int, i + 1));
        i += 1;
    }
    out
}

/// Tells whether `part` occurs in `s` at position `i`.
pub fn matches_at(s: &Vec<char>, part: &Vec<char>, i: usize) -> (r: bool)
    ensures
        r == occurs_at(s@, part@, i as int),
{
    if i > s.len() || part.len() > s.len() - i {
        return false;
    }
    let mut j: usize = 0;
    while j < part.len()
        invariant
            i + part.len() <= s.len(),
            j <= part.len(),
            forall|k: int| 0 <= k < j ==> s@[i + k] == part@[k],
        decreases part.len() - j,
    {
        if s[i + j] != part[j] {
            assert(s@.subrange(i as int, i + part.len())[j as int] != part@[j as int]);
            return false;
        }
        j += 1;
    }
    assert(s@.subrange(i as int, i + part.len()) =~= part@);
    true
}

/// Tells whether `s` begins with `part`.
pub fn has_prefix(s: &Vec<char>, part: &Vec<char>) -> (r: bool)
    ensures
        r == starts_with(s@, part@),
{
    matches_at(s, part, 0)
}

/// Tells whether `s` ends with `part`.
pub fn has_suffix(s: &Vec<char>, part: &Vec<char>) -> (r: bool)
    ensures
        r == ends_with(s@, part@),
{
    if part.len() > s.len() {
        return false;
    }
    matches_at(s, part, s.len() - part.len())
}

/// Tells whether `part` occurs somewhere in `s`.
pub fn has_part(s: &Vec<char>, part: &Vec<char>) -> (r: bool)
    ensures
        r == contains(s@, part@),
{
    if part.len() > s.len() {
        assert forall|i: int| !occurs_at(s@, part@, i) by {}
        return false;
    }
    let last: usize = s.len() - part.len();
    let mut i: usize = 0;
    while i < last
        invariant
            last == s.len() - part.len(),
            i <= last,
            forall|k: int| 0 <= k < i ==> !occurs_at(s@, part@, k),
        decreases last - i,
    {
        if matches_at(s, part, i) {
            return true;
        }
        i += 1;
    }
    let r = matches_at(s, part, last);
    assert(!r ==> forall|k: int| !occurs_at(s@, part@, k));
    r
}

/// Tells whether two texts hold the same characters.
pub fn same_chars(a: &Vec<char>, b: &Vec<char>) -> (r: bool)
    ensures
        r == (a@ == b@),
{
    if a.len() != b.len() {
        return false;
    }
    let r = matches_at(a, b, 0);
    assert(a@.subrange(0, a@.len() as int) =~= a@);
    r
}

/// The final segment of a key.
pub fn segment_of(key: &Vec<char>) -> (r: Vec<char>)
    ensures
        r@ == final_segment(key@),
{
    proof {
        lemma_last_index(key@, '/');
    }
    let n: usize = key.len();
    match find_last(key, '/') {
        Some(p) => slice_of(key, p + 1, n),
        None => slice_of(key, 0, n),
    }
}

/// A text without the white space at its ends, as `str::trim` gives it.
pub uninterp spec fn trimmed_text(s: Seq<char>) -> Seq<char>;

/// Calls `str::trim`, which removes the leading and trailing white space as
/// Unicode defines it; the result depends on the text alone and is known
/// here only by its name.
#[verifier::external_body]
pub(crate) fn trimmed(s: &str) -> (r: String)
    ensures
        r@ == trimmed_text(s@),
{
    s.trim().to_string()
}

/// The lower-case form of a text, as `str::to_lowercase` gives it.
pub uninterp spec fn lowercase_text(s: Seq<char>) -> Seq<char>;

/// Calls `str::to_lowercase`, which maps every character to its lower-case
/// form by the Unicode tables; the result depends on the text alone and is
/// known here only by its name.
#[verifier::external_body]
pub(crate) fn lowercase(s: &str) -> (r: String)
    ensures
        r@ == lowercase_text(s@),
{
    s.to_lowercase()
}

} // verus!
