//! Splitting an image URL into its origin prefix and the path that follows it.

use vstd::prelude::*;
use vstd::string::StringExecFns;

verus! {

/// A `//` marker starts at position `i` of `s`.
pub open spec fn is_marker(s: Seq<char>, i: int) -> bool {
    0 <= i && i + 1 < s.len() && s[i] == '/' && s[i + 1] == '/'
}

/// Position `i` holds the leftmost `//` marker of `s`.
pub open spec fn is_first_marker(s: Seq<char>, i: int) -> bool {
    is_marker(s, i) && forall|j: int| 0 <= j < i ==> !is_marker(s, j)
}

/// Position `k` holds the first `/` that follows the marker at `i`.
pub open spec fn is_path_start(s: Seq<char>, i: int, k: int) -> bool {
    i + 2 <= k < s.len() && s[k] == '/' && forall|j: int| i + 2 <= j < k ==> s[j] != '/'
}

/// `s` has a marker and a `/` after it, so it parts into an origin and a
/// non-empty path.
pub open spec fn has_path(s: Seq<char>) -> bool {
    exists|i: int, k: int| is_first_marker(s, i) && is_path_start(s, i, k)
}

/// `k` is where the path of `s` begins: at the first `/` behind the leftmost
/// `//`, or at the end of `s` where there is no such `/`.
pub open spec fn is_split_point(s: Seq<char>, k: int) -> bool {
    if has_path(s) {
        exists|i: int| is_first_marker(s, i) && is_path_start(s, i, k)
    } else {
        k == s.len()
    }
}

/// The position where the path of `s` begins.
pub open spec fn split_index(s: Seq<char>) -> int {
    choose|k: int| is_split_point(s, k)
}

/// The origin of `s`: what stands before its path.
pub open spec fn origin_of(s: Seq<char>) -> Seq<char> {
    s.take(split_index(s))
}

/// The path of `s`: empty where `s` has no `/` behind a `//`.
pub open spec fn path_of(s: Seq<char>) -> Seq<char> {
    s.skip(split_index(s))
}

/// A sequence has at most one leftmost marker.
pub proof fn lemma_first_marker_unique(s: Seq<char>, a: int, b: int)
    requires
        is_first_marker(s, a),
        is_first_marker(s, b),
    ensures
        a == b,
{
    if a < b {
        assert(!is_marker(s, a));
    } else if b < a {
        assert(!is_marker(s, b));
    }
}

/// A sequence has at most one split point, so one that is found is
/// `split_index`.
pub proof fn lemma_split_point_unique(s: Seq<char>, k1: int, k2: int)
    requires
        is_split_point(s, k1),
        is_split_point(s, k2),
    ensures
        k1 == k2,
        k1 == split_index(s),
{
    lemma_split_point_unique_here(s, k1, k2);
    lemma_split_point_unique_here(s, k1, split_index(s));
}

proof fn lemma_split_point_unique_here(s: Seq<char>, k1: int, k2: int)
    requires
        is_split_point(s, k1),
        is_split_point(s, k2),
    ensures
        k1 == k2,
{
    if has_path(s) {
        let i1 = choose|i: int| is_first_marker(s, i) && is_path_start(s, i, k1);
        let i2 = choose|i: int| is_first_marker(s, i) && is_path_start(s, i, k2);
        assert(i1 == i2) by {
            if i1 < i2 {
                assert(!is_marker(s, i1));
            } else if i2 < i1 {
                assert(!is_marker(s, i2));
            }
        }
        if k1 < k2 {
            assert(s[k1] != '/');
        } else if k2 < k1 {
            assert(s[k2] != '/');
        }
    }
}

/// What a left-to-right scan of a URL has seen so far.
enum Scan {
    /// No marker yet, and the last character was no `/`.
    Plain,
    /// No marker yet, and the last character was a `/`.
    Slash,
    /// The marker has been passed; no `/` has followed it yet.
    Host,
    /// The first `/` behind the marker has been found.
    Done,
}

/// Finds where the path of `url` begins, counted in characters.
pub fn split_point(url: &str) -> (k: usize)
    ensures
        is_split_point(url@, k as int),
        k == split_index(url@),
        k <= url@.len(),
{
    let n: usize = url.unicode_len();
    let mut k: usize = n;
    let mut i: usize = 0;
    let mut scan = Scan::Plain;
    let ghost mut m: int = 0;
    let ghost s = url@;
    for c in it: url.chars()
        invariant
            s == url@,
            it.seq() == s,
            n == s.len(),
            i == it.index(),
            i <= n,
            scan is Done || k == n,
            match scan {
                Scan::Plain => (i == 0 || s[i - 1] != '/') && forall|j: int|
                    0 <= j && j + 1 < i ==> !is_marker(s, j),
                Scan::Slash => i >= 1 && s[i - 1] == '/' && forall|j: int|
                    0 <= j && j + 1 < i ==> !is_marker(s, j),
                Scan::Host => is_first_marker(s, m) && m + 2 <= i && forall|j: int|
                    m + 2 <= j < i ==> s[j] != '/',
                Scan::Done => is_first_marker(s, m) && is_path_start(s, m, k as int),
            },
    {
        match scan {
            Scan::Plain => {
                if c == '/' {
                    scan = Scan::Slash;
                }
            },
            Scan::Slash => {
                if c == '/' {
                    proof {
                        m = i - 1;
                    }
                    scan = Scan::Host;
                } else {
                    scan = Scan::Plain;
                }
            },
            Scan::Host => {
                if c == '/' {
                    k = i;
                    scan = Scan::Done;
                }
            },
            Scan::Done => {},
        }
        i = i + 1;
    }
    proof {
        match scan {
            Scan::Plain | Scan::Slash => {
                assert(forall|j: int| !is_first_marker(s, j));
            },
            Scan::Host => {
                assert forall|a: int, b: int| !(is_first_marker(s, a) && is_path_start(s, a, b)) by {
                    if is_first_marker(s, a) && is_path_start(s, a, b) {
                        lemma_first_marker_unique(s, a, m);
                    }
                }
            },
            Scan::Done => {},
        }
        lemma_split_point_unique(s, k as int, k as int);
    }
    k
}

/// Parts `url` into its origin, which runs up to the first `/` behind the
/// leftmost `//`, and the path from that `/` on. A URL without such a `/` is
/// all origin, and its path is empty.
pub fn split_url<'a>(url: &'a str) -> (parts: (&'a str, &'a str))
    ensures
        is_split_point(url@, parts.0@.len() as int),
        parts.0@ == origin_of(url@),
        parts.1@ == path_of(url@),
{
    let k: usize = split_point(url);
    let n: usize = url.unicode_len();
    let origin = url.substring_char(0, k);
    let path = url.substring_char(k, n);
    (origin, path)
}

/// Puts an origin and a path together again.
pub fn join_url(origin: &str, path: &str) -> (url: String)
    ensures
        url@ == origin@ + path@,
{
    let mut url: String = origin.to_owned();
    url.append(path);
    url
}

/// Every sequence has a split point.
pub proof fn lemma_split_point_exists(s: Seq<char>)
    ensures
        is_split_point(s, split_index(s)),
        0 <= split_index(s) <= s.len(),
{
    if has_path(s) {
        let (i, k) = choose|i: int, k: int| is_first_marker(s, i) && is_path_start(s, i, k);
        assert(is_split_point(s, k));
        let m = choose|m: int| is_first_marker(s, m) && is_path_start(s, m, split_index(s));
    } else {
        assert(is_split_point(s, s.len() as int));
    }
}

/// The two parts of a split URL, put together again, are the URL.
pub proof fn lemma_split_rejoins(url: Seq<char>)
    ensures
        origin_of(url) + path_of(url) == url,
{
    lemma_split_point_exists(url);
    assert(origin_of(url) + path_of(url) =~= url);
}

/// A URL without a `/` behind a `//` is all origin.
pub proof fn lemma_no_path_is_all_origin(url: Seq<char>)
    requires
        !has_path(url),
    ensures
        origin_of(url) == url,
        path_of(url) == Seq::<char>::empty(),
{
    lemma_split_point_exists(url);
    assert(origin_of(url) =~= url);
    assert(path_of(url) =~= Seq::<char>::empty());
}

} // verus!
