//! Path prefix checks used to authorize download directories, and the
//! mount-path helpers for the proxy's own routes.

use vstd::prelude::*;

verus! {

/// `p` starts with `q` (character for character).
pub open spec fn spec_starts_with(p: Seq<char>, q: Seq<char>) -> bool {
    q.len() <= p.len() && p.subrange(0, q.len() as int) == q
}

/// `d` with a trailing slash appended, unless it already ends in one.
pub open spec fn spec_with_slash(d: Seq<char>) -> Seq<char> {
    if d.len() > 0 && d.last() == '/' {
        d
    } else {
        d.push('/')
    }
}

/// `s` with one trailing slash removed, if there is one.
pub open spec fn spec_strip_slash(s: Seq<char>) -> Seq<char> {
    if s.len() > 0 && s.last() == '/' {
        s.drop_last()
    } else {
        s
    }
}

/// A path is prefix-ok against an optional forced download directory `d`:
/// always when `d` is absent, else when the path equals `d` or begins with
/// `d` followed by a slash.
pub open spec fn spec_prefix_ok(path: Seq<char>, d: Option<Seq<char>>) -> bool {
    match d {
        None => true,
        Some(dir) => path == dir || spec_starts_with(path, spec_with_slash(dir)),
    }
}

/// A reported download directory is kept by the response filter when,
/// with any trailing slash stripped, it begins with the forced directory.
pub open spec fn spec_dir_kept(reported: Seq<char>, dir: Seq<char>) -> bool {
    spec_starts_with(spec_strip_slash(reported), dir)
}

/// `p` starts with `q`, decided character by character.
pub fn starts_with_str(p: &str, q: &str) -> (r: bool)
    ensures
        r == spec_starts_with(p@, q@),
{
    let n = q.unicode_len();
    let m = p.unicode_len();
    if n > m {
        return false;
    }
    let mut i: usize = 0;
    while i < n
        invariant
            i <= n <= m,
            n == q@.len(),
            m == p@.len(),
            forall|j: int| 0 <= j < i ==> p@[j] == q@[j],
        decreases n - i,
    {
        if p.get_char(i) != q.get_char(i) {
            assert(p@.subrange(0, n as int)[i as int] == p@[i as int]);
            return false;
        }
        i += 1;
    }
    assert(p@.subrange(0, n as int) =~= q@);
    true
}

/// True when `s` ends in a slash.
pub fn ends_with_slash(s: &str) -> (r: bool)
    ensures
        r == (s@.len() > 0 && s@.last() == '/'),
{
    let n = s.unicode_len();
    if n == 0 {
        return false;
    }
    s.get_char(n - 1) == '/'
}

/// `s` with one trailing slash removed, if there is one.
pub fn strip_trailing_slash(s: &str) -> (r: &str)
    ensures
        r@ == spec_strip_slash(s@),
{
    if ends_with_slash(s) {
        let n = s.unicode_len();
        let r = s.substring_char(0, n - 1);
        assert(r@ =~= s@.drop_last());
        r
    } else {
        s
    }
}

/// `d` with a trailing slash appended, unless it already ends in one.
pub fn with_trailing_slash(d: &str) -> (r: String)
    ensures
        r@ == spec_with_slash(d@),
{
    if ends_with_slash(d) {
        d.to_owned()
    } else {
        let r = d.to_owned().concat("/");
        proof {
            reveal_strlit("/");
            assert(r@ =~= d@.push('/'));
        }
        r
    }
}

/// `a` and `b` hold the same characters.
pub fn str_eq(a: &str, b: &str) -> (r: bool)
    ensures
        r == (a@ == b@),
{
    let n = a.unicode_len();
    if n != b.unicode_len() {
        return false;
    }
    let mut i: usize = 0;
    while i < n
        invariant
            i <= n,
            n == a@.len() == b@.len(),
            forall|j: int| 0 <= j < i ==> a@[j] == b@[j],
        decreases n - i,
    {
        if a.get_char(i) != b.get_char(i) {
            return false;
        }
        i += 1;
    }
    assert(a@ =~= b@);
    true
}

/// The request-side authorization check: a path is accepted against an
/// optional forced download directory exactly when it is prefix-ok.
pub fn prefix_ok(path: &str, download_dir: &Option<String>) -> (r: bool)
    ensures
        r == spec_prefix_ok(path@, match download_dir {
            Some(d) => Some(d@),
            None => None,
        }),
{
    match download_dir {
        None => true,
        Some(dir) => {
            if str_eq(path, dir.as_str()) {
                true
            } else {
                let prefix = with_trailing_slash(dir.as_str());
                starts_with_str(path, prefix.as_str())
            }
        },
    }
}

/// The response-side check: the reported directory, stripped of a trailing
/// slash, must begin with the forced directory.
pub fn dir_kept(reported: &str, dir: &str) -> (r: bool)
    ensures
        r == spec_dir_kept(reported@, dir@),
{
    let stripped = strip_trailing_slash(reported);
    starts_with_str(stripped, dir)
}

} // verus!
