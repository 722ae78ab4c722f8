//! Mapping a repository-relative file path to the path used in its public URL.
use vstd::prelude::*;

verus! {

/// `path` with `prefix` taken off its front, or `path` itself where it does
/// not start with `prefix`.
pub open spec fn without_prefix(path: Seq<char>, prefix: Seq<char>) -> Seq<char> {
    if prefix.len() <= path.len() && path.subrange(0, prefix.len() as int) == prefix {
        path.subrange(prefix.len() as int, path.len() as int)
    } else {
        path
    }
}

/// Whether `s` ends with the three characters `.md`.
pub open spec fn ends_with_md(s: Seq<char>) -> bool {
    s.len() >= 3 && s[s.len() - 3] == '.' && s[s.len() - 2] == 'm' && s[s.len() - 1] == 'd'
}

/// The URL path of a file: the prefix is stripped, then a trailing `md` after
/// a dot becomes `html` (the dot is kept).
pub open spec fn url_path_of(path: Seq<char>, prefix: Seq<char>) -> Seq<char> {
    let rest = without_prefix(path, prefix);
    if ends_with_md(rest) {
        rest.subrange(0, rest.len() - 2) + seq!['h', 't', 'm', 'l']
    } else {
        rest
    }
}

/// Whether `s` starts with `prefix`, compared character by character.
pub fn starts_with(s: &str, prefix: &str) -> (r: bool)
    ensures
        r == (prefix@.len() <= s@.len() && s@.subrange(0, prefix@.len() as int) == prefix@),
{
    let n = prefix.unicode_len();
    let m = s.unicode_len();
    if n > m {
        return false;
    }
    let mut i: usize = 0;
    while i < n
        invariant
            n == prefix@.len(),
            m == s@.len(),
            n <= m,
            i <= n,
            forall|j: int| 0 <= j < i ==> s@[j] == prefix@[j],
        decreases n - i,
    {
        if s.get_char(i) != prefix.get_char(i) {
            assert(s@.subrange(0, n as int)[i as int] != prefix@[i as int]);
            return false;
        }
        i = i + 1;
    }
    assert(s@.subrange(0, n as int) =~= prefix@);
    true
}

/// The path under which a changed file is published: `prefix` is removed from
/// the front of `path` where it stands there, and a final `.md` becomes `.html`.
pub fn url_path(path: &str, prefix: &str) -> (r: String)
    ensures
        r@ == url_path_of(path@, prefix@),
{
    let len = path.unicode_len();
    let first: usize = if starts_with(path, prefix) {
        prefix.unicode_len()
    } else {
        0
    };
    let rest = path.substring_char(first, len);
    assert(rest@ == without_prefix(path@, prefix@)) by {
        if first == 0 {
            assert(path@.subrange(0, len as int) =~= path@);
        }
    }
    let rlen = len - first;
    if rlen >= 3 && rest.get_char(rlen - 3) == '.' && rest.get_char(rlen - 2) == 'm'
        && rest.get_char(rlen - 1) == 'd' {
        let stem = String::from_str(rest.substring_char(0, rlen - 2));
        let r = stem.concat("html");
        proof {
            reveal_strlit("html");
            assert("html"@ =~= seq!['h', 't', 'm', 'l']);
        }
        r
    } else {
        String::from_str(rest)
    }
}

/// A path made of the configured prefix followed by `x` is reduced to exactly
/// `x` before the extension rewrite, so its URL path is that of `x` alone.
pub proof fn lemma_prefix_then_rest(prefix: Seq<char>, x: Seq<char>)
    ensures
        without_prefix(prefix + x, prefix) == x,
        url_path_of(prefix + x, prefix) == url_path_of(x, Seq::<char>::empty()),
{
    assert(x.subrange(0, 0) =~= Seq::<char>::empty());
    assert(x.subrange(0, x.len() as int) =~= x);
    assert((prefix + x).subrange(0, prefix.len() as int) =~= prefix);
    assert((prefix + x).subrange(prefix.len() as int, (prefix + x).len() as int) =~= x);
}

} // verus!
