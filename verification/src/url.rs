//! The URL parser: splits a user-supplied URL into a host with an explicit
//! port and a path.
//!
//! The parser is deliberately permissive and accepts any string. A leading
//! `https://` or `http://` scheme is stripped and otherwise ignored — it
//! never changes the chosen port. Everything from the first `/` on is the
//! path (`/` when there is none), and `:80` is appended to the host when it
//! names no port of its own. Userinfo, query strings and fragments are not
//! extracted; they pass through verbatim in the path.

use vstd::prelude::*;
use vstd::string::{StrSliceExecFns, StringExecFns};

verus! {

/// The URL with a leading `https://` or `http://` removed.
pub open spec fn spec_strip_scheme(url: Seq<char>) -> Seq<char> {
    if url.len() >= 8 && url.take(8) == "https://"@ {
        url.skip(8)
    } else if url.len() >= 7 && url.take(7) == "http://"@ {
        url.skip(7)
    } else {
        url
    }
}

/// The index of the first occurrence of `c` in `s`, or `s.len()` when `c`
/// does not occur.
pub open spec fn find_char(s: Seq<char>, c: char) -> int
    decreases s.len(),
{
    if s.len() == 0 {
        0
    } else if s[0] == c {
        0
    } else {
        1 + find_char(s.drop_first(), c)
    }
}

/// `find_char` is the first occurrence: everything before it differs from
/// `c`, and it lands on `c` unless `c` is absent.
pub proof fn lemma_find_char(s: Seq<char>, c: char)
    ensures
        0 <= find_char(s, c) <= s.len(),
        find_char(s, c) < s.len() ==> s[find_char(s, c)] == c,
        forall|k: int| 0 <= k < find_char(s, c) ==> s[k] != c,
    decreases s.len(),
{
    if s.len() > 0 && s[0] != c {
        lemma_find_char(s.drop_first(), c);
        assert forall|k: int| 0 <= k < find_char(s, c) implies s[k] != c by {
            if k > 0 {
                assert(s.drop_first()[k - 1] == s[k]);
            }
        }
    }
}

/// What `parse_url` returns: the host with an explicit port, and the path.
pub open spec fn spec_parse_url(url: Seq<char>) -> (Seq<char>, Seq<char>) {
    let u = spec_strip_scheme(url);
    let slash = find_char(u, '/');
    let host_candidate = u.take(slash);
    let path = if slash < u.len() {
        u.skip(slash)
    } else {
        "/"@
    };
    let host = if find_char(host_candidate, ':') < host_candidate.len() {
        host_candidate
    } else {
        host_candidate + ":80"@
    };
    (host, path)
}

/// Whether `s` begins with the characters of `p`.
fn str_has_prefix(s: &str, p: &str) -> (r: bool)
    ensures
        r == (s@.len() >= p@.len() && s@.take(p@.len() as int) == p@),
{
    let n = p.unicode_len();
    if s.unicode_len() < n {
        return false;
    }
    let mut i: usize = 0;
    while i < n
        invariant
            0 <= i <= n,
            n == p@.len() <= s@.len(),
            forall|k: int| 0 <= k < i ==> s@[k] == p@[k],
        decreases n - i,
    {
        if s.get_char(i) != p.get_char(i) {
            assert(s@.take(n as int)[i as int] != p@[i as int]);
            return false;
        }
        i += 1;
    }
    assert(s@.take(n as int) =~= p@);
    true
}

/// Splits a URL into `(host_port, path)`, as [`spec_parse_url`] says: the
/// scheme is stripped and ignored, the path starts at the first `/` and
/// defaults to `/`, and `:80` is appended when the host names no port.
/// Every string is accepted; errors surface later, when connecting.
pub fn parse_url(url: &str) -> (r: (String, String))
    ensures
        r.0@ == spec_parse_url(url@).0,
        r.1@ == spec_parse_url(url@).1,
{
    proof {
        reveal_strlit("https://");
        reveal_strlit("http://");
    }
    let n = url.unicode_len();
    let stripped: &str = if str_has_prefix(url, "https://") {
        url.substring_char(8, n)
    } else if str_has_prefix(url, "http://") {
        url.substring_char(7, n)
    } else {
        url
    };
    proof {
        assert(stripped@ =~= spec_strip_scheme(url@));
    }
    let m = stripped.unicode_len();
    let mut i: usize = 0;
    while i < m && stripped.get_char(i) != '/'
        invariant
            0 <= i <= m == stripped@.len(),
            forall|k: int| 0 <= k < i ==> stripped@[k] != '/',
        decreases m - i,
    {
        i += 1;
    }
    proof {
        lemma_find_char(stripped@, '/');
        assert(i == find_char(stripped@, '/'));
    }
    let host_candidate: &str = stripped.substring_char(0, i);
    let path: String = if i < m {
        stripped.substring_char(i, m).to_owned()
    } else {
        String::from_str("/")
    };
    let mut j: usize = 0;
    while j < i && host_candidate.get_char(j) != ':'
        invariant
            0 <= j <= i == host_candidate@.len(),
            forall|k: int| 0 <= k < j ==> host_candidate@[k] != ':',
        decreases i - j,
    {
        j += 1;
    }
    proof {
        lemma_find_char(host_candidate@, ':');
        assert(j == find_char(host_candidate@, ':'));
    }
    let mut host: String = host_candidate.to_owned();
    if j == i {
        host.append(":80");
    }
    (host, path)
}

} // verus!
