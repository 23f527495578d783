//! What the HTTP layer decides: the answers to requests, the checks on
//! request bodies, and the paths under which the resources are served.

pub mod context;
pub mod handler;

use crate::json::{Json, JsonV, Members};
use crate::text::{chars_of, find_last, last_index, lemma_last_index};
use vstd::prelude::*;

verus! {

/// The path under which the resource of a key is served: the key with
/// `{resource}` in the place of its final segment, after a `/`.
pub open spec fn path_of(key: Seq<char>) -> Seq<char> {
    if last_index(key, '/') >= 0 {
        "/"@ + key.subrange(0, last_index(key, '/') + 1) + "{resource}"@
    } else {
        "/{resource}"@
    }
}

/// The paths of the keys of the members, in their order.
pub open spec fn paths_of(m: Members) -> Seq<Seq<char>> {
    Seq::new(m.len(), |i: int| path_of(m[i].0))
}

/// The paths without those that repeat the one before them.
pub open spec fn dedup(s: Seq<Seq<char>>) -> Seq<Seq<char>>
    decreases s.len(),
{
    if s.len() == 0 {
        s
    } else if s.len() >= 2 && s.last() == s[s.len() - 2] {
        dedup(s.drop_last())
    } else {
        dedup(s.drop_last()).push(s.last())
    }
}

/// The number of `/` in a path.
pub open spec fn depth(path: Seq<char>) -> int
    decreases path.len(),
{
    if path.len() == 0 {
        0
    } else if path.last() == '/' {
        depth(path.drop_last()) + 1
    } else {
        depth(path.drop_last())
    }
}

/// The paths of depth `d`, in their order.
pub open spec fn of_depth(s: Seq<Seq<char>>, d: int) -> Seq<Seq<char>>
    decreases s.len(),
{
    if s.len() == 0 {
        Seq::empty()
    } else if depth(s.last()) == d {
        of_depth(s.drop_last(), d).push(s.last())
    } else {
        of_depth(s.drop_last(), d)
    }
}

/// The greatest depth of the paths.
pub open spec fn max_depth(s: Seq<Seq<char>>) -> int
    decreases s.len(),
{
    if s.len() == 0 {
        0
    } else if depth(s.last()) > max_depth(s.drop_last()) {
        depth(s.last())
    } else {
        max_depth(s.drop_last())
    }
}

/// The paths of the depths from `top` down to `low`, the deeper first and
/// those of one depth in their order.
pub open spec fn down_to(s: Seq<Seq<char>>, top: int, low: int) -> Seq<Seq<char>>
    decreases top - low + 1,
{
    if low > top {
        Seq::empty()
    } else {
        down_to(s, top, low + 1) + of_depth(s, low)
    }
}

/// The paths under which the resources of a document are served: the
/// deeper first, so that the more specific path is tried first.
pub open spec fn resource_paths(doc: JsonV) -> Seq<Seq<char>> {
    match doc {
        JsonV::Object(m) => down_to(dedup(paths_of(m)), max_depth(dedup(paths_of(m))), 0),
        _ => Seq::empty(),
    }
}

/// The address that a host name stands for: `localhost` is the loopback
/// address, every other name is taken as an address.
pub open spec fn address_of(host: Seq<char>) -> Seq<char> {
    if host == "localhost"@ {
        "127.0.0.1"@
    } else {
        host
    }
}

/// The address that a host name stands for.
pub fn host_address(host: &str) -> (r: String)
    ensures
        r@ == address_of(host@),
{
    if crate::storage::operation::same_text(host, "localhost") {
        "127.0.0.1".to_owned()
    } else {
        host.to_owned()
    }
}

/// The views of a list of paths.
pub open spec fn paths_view(paths: Seq<String>) -> Seq<Seq<char>> {
    Seq::new(paths.len(), |i: int| paths[i]@)
}

/// The path under which the resource of a key is served.
pub fn resource_path(key: &str) -> (r: String)
    ensures
        r@ == path_of(key@),
{
    let k = chars_of(key);
    proof {
        lemma_last_index(k@, '/');
    }
    match find_last(&k, '/') {
        Some(p) => {
            let mut path = "/".to_owned();
            path.append(key.substring_char(0, p + 1));
            path.append("{resource}");
            path
        },
        None => "/{resource}".to_owned(),
    }
}

/// The number of `/` in a path.
pub fn path_depth(path: &str) -> (r: usize)
    ensures
        r == depth(path@),
{
    let k = chars_of(path);
    let mut count: usize = 0;
    let mut i: usize = 0;
    assert(k@.subrange(0, 0) =~= Seq::<char>::empty());
    while i < k.len()
        invariant
            i <= k.len(),
            count <= i,
            count == depth(k@.subrange(0, i as int)),
        decreases k.len() - i,
    {
        proof {
            let next = k@.subrange(0, i + 1);
            assert(next.drop_last() =~= k@.subrange(0, i as int));
            assert(next.last() == k@[i as int]);
        }
        if k[i] == '/' {
            count += 1;
        }
        i += 1;
    }
    assert(k@.subrange(0, i as int) =~= k@);
    count
}

/// The paths without those that repeat the one before them.
fn without_repeats(paths: &Vec<String>) -> (r: Vec<String>)
    ensures
        paths_view(r@) == dedup(paths_view(paths@)),
{
    let ghost all = paths_view(paths@);
    let mut out: Vec<String> = Vec::new();
    let mut i: usize = 0;
    assert(all.subrange(0, 0) =~= Seq::<Seq<char>>::empty());
    assert(paths_view(out@) =~= Seq::<Seq<char>>::empty());
    while i < paths.len()
        invariant
            i <= paths.len(),
            all == paths_view(paths@),
            paths_view(out@) == dedup(all.subrange(0, i as int)),
        decreases paths.len() - i,
    {
        proof {
            let next = all.subrange(0, i + 1);
            assert(next.drop_last() =~= all.subrange(0, i as int));
            assert(next.last() == paths@[i as int]@);
            if i > 0 {
                assert(next[next.len() - 2] == paths@[i - 1]@);
            }
        }
        let ghost before = out@;
        if !(i > 0 && paths[i] == paths[i - 1]) {
            out.push(paths[i].clone());
            assert(paths_view(out@) =~= paths_view(before).push(paths@[i as int]@));
        }
        i += 1;
    }
    assert(all.subrange(0, i as int) =~= all);
    out
}

/// The paths under which the resources of a document are served.
pub fn convert_to_resource_paths(value: &Json) -> (r: Vec<String>)
    ensures
        paths_view(r@) == resource_paths(value@),
{
    let mut paths: Vec<String> = Vec::new();
    match value {
        Json::Object(m) => {
            let mut i: usize = 0;
            while i < m.len()
                invariant
                    i <= m@.len(),
                    paths@.len() == i,
                    forall|k: int| 0 <= k < i ==> (#[trigger] paths@[k])@ == path_of(m@[k].0),
                decreases m@.len() - i,
            {
                paths.push(resource_path(m.key_at(i).as_str()));
                i += 1;
            }
            assert(paths_view(paths@) =~= paths_of(m@));
        },
        _ => {
            assert(paths_view(paths@) =~= Seq::<Seq<char>>::empty());
            return paths;
        },
    }
    let paths = without_repeats(&paths);
    let ghost all = paths_view(paths@);
    let mut depths: Vec<usize> = Vec::new();
    let mut top: usize = 0;
    let mut i: usize = 0;
    assert(all.subrange(0, 0) =~= Seq::<Seq<char>>::empty());
    while i < paths.len()
        invariant
            i <= paths.len(),
            all == paths_view(paths@),
            depths@.len() == i,
            forall|k: int| 0 <= k < i ==> (#[trigger] depths@[k]) as int == depth(all[k]),
            top == max_depth(all.subrange(0, i as int)),
        decreases paths.len() - i,
    {
        proof {
            let next = all.subrange(0, i + 1);
            assert(next.drop_last() =~= all.subrange(0, i as int));
            assert(next.last() == all[i as int]);
        }
        let d = path_depth(paths[i].as_str());
        if d > top {
            top = d;
        }
        depths.push(d);
        i += 1;
    }
    assert(all.subrange(0, i as int) =~= all);
    let mut out: Vec<String> = Vec::new();
    let mut level: usize = top;
    let mut done = false;
    assert(paths_view(out@) =~= down_to(all, top as int, level + 1));
    while !done
        invariant
            all == paths_view(paths@),
            depths@.len() == paths@.len(),
            forall|k: int| 0 <= k < paths@.len() ==> (#[trigger] depths@[k]) as int == depth(all[k]),
            level <= top,
            !done ==> paths_view(out@) == down_to(all, top as int, level + 1),
            done ==> paths_view(out@) == down_to(all, top as int, 0),
        decreases level + (if done { 0int } else { 1int }),
    {
        let ghost base = paths_view(out@);
        let mut j: usize = 0;
        assert(all.subrange(0, 0) =~= Seq::<Seq<char>>::empty());
        assert(base + Seq::<Seq<char>>::empty() =~= base);
        while j < paths.len()
            invariant
                j <= paths.len(),
                all == paths_view(paths@),
                depths@.len() == paths@.len(),
                forall|k: int|
                    0 <= k < paths@.len() ==> (#[trigger] depths@[k]) as int == depth(all[k]),
                paths_view(out@) == base + of_depth(all.subrange(0, j as int), level as int),
            decreases paths.len() - j,
        {
            proof {
                let next = all.subrange(0, j + 1);
                assert(next.drop_last() =~= all.subrange(0, j as int));
                assert(next.last() == all[j as int]);
            }
            let ghost before = out@;
            if depths[j] == level {
                out.push(paths[j].clone());
                assert(paths_view(out@) =~= paths_view(before).push(all[j as int]));
                assert(paths_view(out@) =~= base + of_depth(all.subrange(0, j + 1), level as int));
            }
            j += 1;
        }
        assert(all.subrange(0, j as int) =~= all);
        if level == 0 {
            done = true;
        } else {
            level -= 1;
        }
    }
    out
}

} // verus!
