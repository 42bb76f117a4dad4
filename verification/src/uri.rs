//! Child URIs.
//!
//! A child URI names one backing replica: `loopback:///<uuid>` for an
//! in-process local backing object, `nvmf://<host>:<port>/<nqn>:<uuid>`
//! for a networked target (the replica identity follows the last
//! colon).  A URI without a `scheme://` part cannot be parsed at all,
//! and any other scheme is unsupported.

use vstd::prelude::*;
use vstd::string::StrSliceExecFns;
use crate::status::NexusBdevError;

verus! {

/// Index of the first occurrence of `c` in `s` at or after `i`, or
/// `s.len()` if there is none.
pub open spec fn scan_to(s: Seq<char>, i: int, c: char) -> int
    decreases s.len() - i,
{
    if i < 0 || i >= s.len() {
        s.len() as int
    } else if s[i] == c {
        i
    } else {
        scan_to(s, i + 1, c)
    }
}

/// Index of the last occurrence of `c` in `s` at or before `i`, or
/// `-1` if there is none.
pub open spec fn scan_back(s: Seq<char>, i: int, c: char) -> int
    decreases i + 1,
{
    if i < 0 || i >= s.len() {
        -1
    } else if s[i] == c {
        i
    } else {
        scan_back(s, i - 1, c)
    }
}

/// How one child URI reads.
pub enum UriParse {
    /// No `scheme://` part.
    Unparsable,
    /// A scheme this node does not support.
    BadScheme,
    /// A supported scheme, but no replica identity after it.
    Malformed,
    /// A local backing object.
    Local { uuid: Seq<char> },
    /// A networked, shared backing target.
    Shared { uuid: Seq<char> },
}

/// Parse of one child URI: the scheme runs to the first colon, which
/// must be followed by `//`; a local URI carries the replica identity
/// as its whole path, a networked URI carries it after the last colon.
pub open spec fn spec_parse_child_uri(u: Seq<char>) -> UriParse {
    let c = scan_to(u, 0, ':');
    if !(c + 3 <= u.len() && u[c + 1] == '/' && u[c + 2] == '/') {
        UriParse::Unparsable
    } else if u.subrange(0, c) == "loopback"@ {
        if c + 4 < u.len() && u[c + 3] == '/' {
            UriParse::Local { uuid: u.subrange(c + 4, u.len() as int) }
        } else {
            UriParse::Malformed
        }
    } else if u.subrange(0, c) == "nvmf"@ {
        let lc = scan_back(u, u.len() - 1, ':');
        if lc > c && lc + 1 < u.len() {
            UriParse::Shared { uuid: u.subrange(lc + 1, u.len() as int) }
        } else {
            UriParse::Malformed
        }
    } else {
        UriParse::BadScheme
    }
}

/// The backing target one parsed child URI names.
#[derive(Debug)]
pub struct ChildTarget {
    /// Networked target, shared between nodes.
    pub shared: bool,
    /// Identity of the backing replica.
    pub uuid: String,
}

/// Index of the first occurrence of `c` at or after `from`, or the
/// length if there is none.
pub(crate) fn find_from(s: &str, from: usize, c: char) -> (r: usize)
    requires
        from <= s@.len(),
    ensures
        r == scan_to(s@, from as int, c),
        from <= r <= s@.len(),
        r < s@.len() ==> s@[r as int] == c,
{
    let n = s.unicode_len();
    let mut i = from;
    while i < n
        invariant
            from <= i <= n,
            n == s@.len(),
            scan_to(s@, from as int, c) == scan_to(s@, i as int, c),
        decreases n - i,
    {
        if s.get_char(i) == c {
            return i;
        }
        proof {
            assert(scan_to(s@, i as int, c) == scan_to(s@, i + 1, c));
        }
        i += 1;
    }
    proof {
        assert(scan_to(s@, i as int, c) == s@.len());
    }
    n
}

/// Index of the last occurrence of `c`, or none.
fn rfind(s: &str, c: char) -> (r: Option<usize>)
    ensures
        match r {
            Some(i) => i < s@.len() && i == scan_back(s@, s@.len() - 1, c),
            None => scan_back(s@, s@.len() - 1, c) == -1,
        },
{
    let n = s.unicode_len();
    let mut i = n;
    while i > 0
        invariant
            i <= n,
            n == s@.len(),
            scan_back(s@, s@.len() - 1, c) == scan_back(s@, i - 1, c),
        decreases i,
    {
        let j = i - 1;
        if s.get_char(j) == c {
            return Some(j);
        }
        proof {
            assert(scan_back(s@, j as int, c) == scan_back(s@, j - 1, c));
        }
        i = j;
    }
    None
}

/// Whether `s[from..to]` spells exactly `t`.
fn eq_range(s: &str, from: usize, to: usize, t: &str) -> (r: bool)
    requires
        from <= to <= s@.len(),
    ensures
        r <==> s@.subrange(from as int, to as int) == t@,
{
    let tn = t.unicode_len();
    if to - from != tn {
        proof {
            assert(s@.subrange(from as int, to as int).len() != t@.len());
        }
        return false;
    }
    let mut i: usize = 0;
    while i < tn
        invariant
            from <= to <= s@.len(),
            tn == t@.len(),
            to - from == tn,
            i <= tn,
            forall|j: int| 0 <= j < i ==> s@[from + j] == t@[j],
        decreases tn - i,
    {
        if s.get_char(from + i) != t.get_char(i) {
            proof {
                assert(s@.subrange(from as int, to as int)[i as int] != t@[i as int]);
            }
            return false;
        }
        i += 1;
    }
    proof {
        assert(s@.subrange(from as int, to as int) =~= t@);
    }
    true
}

/// Parse one child URI into the backing target it names, or the
/// device-layer error that classifies why it cannot be used.
pub fn parse_child_uri(uri: &String) -> (r: Result<ChildTarget, NexusBdevError>)
    ensures
        match spec_parse_child_uri(uri@) {
            UriParse::Local { uuid } => r matches Ok(t) && !t.shared && t.uuid@ == uuid,
            UriParse::Shared { uuid } => r matches Ok(t) && t.shared && t.uuid@ == uuid,
            UriParse::Unparsable => r matches Err(e) && e matches NexusBdevError::UrlParseError {
                url,
            } && url@ == uri@,
            UriParse::BadScheme => r matches Err(e) && e
                matches NexusBdevError::UriSchemeUnsupported { scheme } && scheme@ == uri@.subrange(
                0,
                scan_to(uri@, 0, ':'),
            ),
            UriParse::Malformed => r matches Err(e) && e matches NexusBdevError::UriInvalid {
                uri: u,
            } && u@ == uri@,
        },
{
    let s = uri.as_str();
    let n = s.unicode_len();
    let c = find_from(s, 0, ':');
    if !(n >= 3 && c <= n - 3 && s.get_char(c + 1) == '/' && s.get_char(c + 2) == '/') {
        return Err(NexusBdevError::UrlParseError { url: uri.clone() });
    }
    if eq_range(s, 0, c, "loopback") {
        if n - c > 4 && s.get_char(c + 3) == '/' {
            let uuid = s.substring_char(c + 4, n).to_owned();
            Ok(ChildTarget { shared: false, uuid })
        } else {
            Err(NexusBdevError::UriInvalid { uri: uri.clone() })
        }
    } else if eq_range(s, 0, c, "nvmf") {
        match rfind(s, ':') {
            Some(lc) => {
                if lc > c && lc + 1 < n {
                    let uuid = s.substring_char(lc + 1, n).to_owned();
                    Ok(ChildTarget { shared: true, uuid })
                } else {
                    Err(NexusBdevError::UriInvalid { uri: uri.clone() })
                }
            },
            None => Err(NexusBdevError::UriInvalid { uri: uri.clone() }),
        }
    } else {
        Err(NexusBdevError::UriSchemeUnsupported { scheme: s.substring_char(0, c).to_owned() })
    }
}

} // verus!
