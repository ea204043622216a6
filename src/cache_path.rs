//! Mapping a request's host and path to the segments of a cache file path
//! under the cache root, dropping every segment that could leave it.
use vstd::prelude::*;
use vstd::string::*;
use crate::text::{lemma_split_on_char_pieces, split_char, split_on_char, views};

verus! {

/// A path segment that names an entry inside its directory: not empty, not
/// `.` or `..`, and free of the separator `/`.
pub open spec fn is_plain_name(seg: Seq<char>) -> bool {
    seg.len() > 0 && seg != seq!['.'] && seg != seq!['.', '.'] && !seg.contains('/')
}

/// The plain names among the segments, in order.
pub open spec fn plain_names(segs: Seq<Seq<char>>) -> Seq<Seq<char>>
    decreases segs.len(),
{
    if segs.len() == 0 {
        Seq::empty()
    } else if is_plain_name(segs.last()) {
        plain_names(segs.drop_last()).push(segs.last())
    } else {
        plain_names(segs.drop_last())
    }
}

/// The file name that stands for a path ending in `/`.
pub open spec fn index_name() -> Seq<char> {
    seq!['i', 'n', 'd', 'e', 'x', '.', 'h', 't', 'm', 'l']
}

/// The sanitized form of a request path: its plain-name segments, followed
/// by `index.html` where the path ends in `/`. Query strings take no part.
pub open spec fn sanitized(path: Seq<char>) -> Seq<Seq<char>> {
    plain_names(split_on_char(path, '/')) + if path.len() > 0 && path.last() == '/' {
        seq![index_name()]
    } else {
        Seq::empty()
    }
}

/// The segments of a cache entry's path below the cache root: the host,
/// then the sanitized path. A host that is no plain name has no entry (no
/// segment at all), so that entries of different hosts never meet.
pub open spec fn cache_entry(host: Seq<char>, path: Seq<char>) -> Seq<Seq<char>> {
    if is_plain_name(host) {
        seq![host] + sanitized(path)
    } else {
        Seq::empty()
    }
}

proof fn lemma_plain_names_are_plain(segs: Seq<Seq<char>>)
    ensures
        forall|i: int|
            0 <= i < plain_names(segs).len() ==> is_plain_name(#[trigger] plain_names(segs)[i]),
    decreases segs.len(),
{
    if segs.len() > 0 {
        lemma_plain_names_are_plain(segs.drop_last());
        let init = plain_names(segs.drop_last());
        assert forall|i: int| 0 <= i < plain_names(segs).len() implies is_plain_name(
            #[trigger] plain_names(segs)[i],
        ) by {
            if i < init.len() {
                assert(plain_names(segs)[i] == init[i]);
            }
        }
    }
}

/// Every segment of a cache entry's path is a plain name, so that the path,
/// joined under the cache root, names a file inside it whatever the host
/// and request path are.
pub proof fn lemma_cache_entry_inside_root(host: Seq<char>, path: Seq<char>)
    ensures
        forall|i: int|
            0 <= i < cache_entry(host, path).len() ==> is_plain_name(
                #[trigger] cache_entry(host, path)[i],
            ),
{
    lemma_plain_names_are_plain(split_on_char(path, '/'));
    let idx = index_name();
    assert(!idx.contains('/')) by {
        assert forall|j: int| 0 <= j < idx.len() implies idx[j] != '/' by {}
    }
    assert(idx != seq!['.']) by {
        assert(idx.len() != 1);
    }
    assert(idx != seq!['.', '.']) by {
        assert(idx.len() != 2);
    }
}

/// Requests to different hosts never share a cache entry: an entry's first
/// segment is its host.
pub proof fn lemma_hosts_apart(h1: Seq<char>, p1: Seq<char>, h2: Seq<char>, p2: Seq<char>)
    requires
        h1 != h2,
    ensures
        cache_entry(h1, p1).len() == 0 || cache_entry(h2, p2).len() == 0 || cache_entry(h1, p1)
            != cache_entry(h2, p2),
{
    if is_plain_name(h1) && is_plain_name(h2) {
        assert(cache_entry(h1, p1)[0] == h1);
        assert(cache_entry(h2, p2)[0] == h2);
    }
}

/// The sanitized segments of a request path.
pub fn sanitize(path: &str) -> (r: Vec<String>)
    ensures
        views(r@) == sanitized(path@),
{
    let segs = split_char(path, '/');
    let ghost ss = views(segs@);
    let mut out: Vec<String> = Vec::new();
    let mut i: usize = 0;
    proof {
        assert(ss.take(0) =~= Seq::<Seq<char>>::empty());
        assert(views(out@) =~= Seq::<Seq<char>>::empty());
        lemma_split_on_char_pieces(path@, '/');
    }
    while i < segs.len()
        invariant
            ss == views(segs@),
            ss == split_on_char(path@, '/'),
            forall|k: int| 0 <= k < ss.len() ==> !(#[trigger] ss[k]).contains('/'),
            i <= segs.len(),
            views(out@) == plain_names(ss.take(i as int)),
        decreases segs.len() - i,
    {
        let seg = segs[i].as_str();
        proof {
            assert(ss.take(i + 1).drop_last() =~= ss.take(i as int));
            assert(ss.take(i + 1).last() == seg@);
            assert(ss[i as int] == seg@);
        }
        if is_plain(seg) {
            let name = String::from_str(seg);
            proof {
                assert(views(out@.push(name)) =~= views(out@).push(name@));
            }
            out.push(name);
        }
        i = i + 1;
    }
    proof {
        assert(ss.take(segs.len() as int) =~= ss);
    }
    let n = path.unicode_len();
    if n > 0 && path.get_char(n - 1) == '/' {
        let index = "index.html";
        proof {
            reveal_strlit("index.html");
            assert(index@ =~= index_name());
        }
        let name = String::from_str(index);
        proof {
            assert(views(out@.push(name)) =~= views(out@) + seq![index_name()]);
        }
        out.push(name);
    } else {
        proof {
            assert(views(out@) =~= views(out@) + Seq::<Seq<char>>::empty());
        }
    }
    out
}

/// Whether a segment free of `/` is a plain name.
fn is_plain(seg: &str) -> (r: bool)
    requires
        !seg@.contains('/'),
    ensures
        r == is_plain_name(seg@),
{
    let n = seg.unicode_len();
    if n == 0 {
        return false;
    }
    if n == 1 && seg.get_char(0) == '.' {
        proof {
            assert(seg@ =~= seq!['.']);
        }
        return false;
    }
    if n == 2 && seg.get_char(0) == '.' && seg.get_char(1) == '.' {
        proof {
            assert(seg@ =~= seq!['.', '.']);
        }
        return false;
    }
    true
}

/// The segments of the cache entry for a request with the given host and
/// path, to be joined under the cache root.
pub fn cache_entry_segments(host: &str, path: &str) -> (r: Vec<String>)
    ensures
        views(r@) == cache_entry(host@, path@),
        forall|i: int| 0 <= i < r@.len() ==> is_plain_name(#[trigger] r@[i]@),
        r@.len() > 0 <==> is_plain_name(host@),
        r@.len() > 0 ==> r@[0]@ == host@,
{
    let mut out: Vec<String> = Vec::new();
    if has_slash(host) || !is_plain(host) {
        proof {
            assert(views(out@) =~= cache_entry(host@, path@));
        }
        return out;
    }
    let rest = sanitize(path);
    out.push(String::from_str(host));
    let mut i: usize = 0;
    proof {
        assert(views(out@) =~= cache_entry(host@, path@).take(out@.len() as int));
    }
    let ghost base = out@.len();
    while i < rest.len()
        invariant
            base == out@.len() - i,
            views(rest@) == sanitized(path@),
            i <= rest.len(),
            base + rest@.len() == cache_entry(host@, path@).len(),
            views(out@) == cache_entry(host@, path@).take(base + i),
            cache_entry(host@, path@).skip(base as int) == sanitized(path@),
        decreases rest.len() - i,
    {
        let seg = rest[i].clone();
        proof {
            let ce = cache_entry(host@, path@);
            assert(ce[base + i] == views(rest@)[i as int]);
            assert(views(out@.push(seg)) =~= ce.take(base + i + 1));
        }
        out.push(seg);
        i = i + 1;
    }
    proof {
        let ce = cache_entry(host@, path@);
        assert(ce.take(ce.len() as int) =~= ce);
        lemma_cache_entry_inside_root(host@, path@);
        assert forall|k: int| 0 <= k < out@.len() implies is_plain_name(#[trigger] out@[k]@) by {
            assert(views(out@)[k] == out@[k]@);
        }
        assert(views(out@)[0] == out@[0]@);
    }
    out
}

/// Whether a text holds the separator `/`.
fn has_slash(s: &str) -> (r: bool)
    ensures
        r == s@.contains('/'),
{
    let n = s.unicode_len();
    let mut i: usize = 0;
    while i < n
        invariant
            n == s@.len(),
            i <= n,
            forall|k: int| 0 <= k < i ==> s@[k] != '/',
        decreases n - i,
    {
        if s.get_char(i) == '/' {
            return true;
        }
        i = i + 1;
    }
    false
}

} // verus!
