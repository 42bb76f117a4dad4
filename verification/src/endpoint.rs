//! Network endpoint defaults and canonicalization.
//!
//! The administrative surface listens on a fixed default port; an
//! endpoint string lacking a port suffix has the default port appended
//! before it is parsed as an `a.b.c.d:port` address.

use vstd::prelude::*;
use vstd::string::StrSliceExecFns;
use crate::uri::{find_from, scan_to};

verus! {

/// Default server port of the administrative endpoint.
pub const DEFAULT_PORT: u16 = 10124;

/// Default server port.
pub fn default_port() -> (r: u16)
    ensures
        r == 10124,
{
    DEFAULT_PORT
}

/// Default endpoint - ip:port.
pub fn default_endpoint_str() -> (r: &'static str)
    ensures
        r@ == "0.0.0.0:10124"@,
{
    "0.0.0.0:10124"
}

/// A parsed IPv4 socket address.
#[derive(Clone, Copy, Debug, PartialEq, Eq, Structural)]
pub struct Endpoint {
    pub ip0: u8,
    pub ip1: u8,
    pub ip2: u8,
    pub ip3: u8,
    pub port: u16,
}

pub open spec fn is_digit(c: char) -> bool {
    '0' <= c && c <= '9'
}

pub open spec fn digit_val(c: char) -> int {
    (c as int) - 48
}

pub open spec fn all_digits(s: Seq<char>) -> bool {
    forall|i: int| 0 <= i < s.len() ==> is_digit(#[trigger] s[i])
}

/// Decimal value of a digit string.
pub open spec fn dec_val(s: Seq<char>) -> int
    decreases s.len(),
{
    if s.len() == 0 {
        0
    } else {
        dec_val(s.drop_last()) * 10 + digit_val(s.last())
    }
}

/// A canonical decimal number up to `max`: at least one digit, no
/// leading zero, value in range.
pub open spec fn is_canonical_num(s: Seq<char>, max: int) -> bool {
    &&& s.len() >= 1
    &&& all_digits(s)
    &&& (s.len() > 1 ==> s[0] != '0')
    &&& dec_val(s) <= max
}

/// The canonical form of an endpoint string: one without any colon
/// has the default port appended.
pub open spec fn spec_canonical(s: Seq<char>) -> Seq<char> {
    if scan_to(s, 0, ':') < s.len() {
        s
    } else {
        s + ":10124"@
    }
}

/// Deterministic read of `a.b.c.d:port`: the first three dots, then
/// the first colon after them, bound four canonical octets and a
/// canonical port.
pub open spec fn spec_parse_endpoint(s: Seq<char>) -> Option<Endpoint> {
    let d1 = scan_to(s, 0, '.');
    let d2 = scan_to(s, d1 + 1, '.');
    let d3 = scan_to(s, d2 + 1, '.');
    let c = scan_to(s, d3 + 1, ':');
    if d1 < s.len() && d2 < s.len() && d3 < s.len() && c < s.len() && is_canonical_num(
        s.subrange(0, d1),
        255,
    ) && is_canonical_num(s.subrange(d1 + 1, d2), 255) && is_canonical_num(
        s.subrange(d2 + 1, d3),
        255,
    ) && is_canonical_num(s.subrange(d3 + 1, c), 255) && is_canonical_num(
        s.subrange(c + 1, s.len() as int),
        65535,
    ) {
        Some(
            Endpoint {
                ip0: dec_val(s.subrange(0, d1)) as u8,
                ip1: dec_val(s.subrange(d1 + 1, d2)) as u8,
                ip2: dec_val(s.subrange(d2 + 1, d3)) as u8,
                ip3: dec_val(s.subrange(d3 + 1, c)) as u8,
                port: dec_val(s.subrange(c + 1, s.len() as int)) as u16,
            },
        )
    } else {
        None
    }
}

proof fn lemma_dec_val_nonneg(s: Seq<char>)
    requires
        all_digits(s),
    ensures
        dec_val(s) >= 0,
    decreases s.len(),
{
    if s.len() > 0 {
        assert(is_digit(s.last()));
        lemma_dec_val_nonneg(s.drop_last());
    }
}

proof fn lemma_dec_val_prefix(s: Seq<char>, i: int)
    requires
        all_digits(s),
        0 <= i <= s.len(),
    ensures
        dec_val(s.take(i)) <= dec_val(s),
    decreases s.len() - i,
{
    if i < s.len() {
        assert(s.take(i + 1).drop_last() == s.take(i));
        assert(s.take(i + 1).last() == s[i]);
        assert(is_digit(s[i]));
        assert(all_digits(s.take(i)));
        lemma_dec_val_nonneg(s.take(i));
        assert(dec_val(s.take(i + 1)) == dec_val(s.take(i)) * 10 + digit_val(s[i]));
        lemma_dec_val_prefix(s, i + 1);
    } else {
        assert(s.take(i) == s);
    }
}

/// Value of the canonical decimal number `s[from..to]`, if it is one.
fn parse_decimal(s: &str, from: usize, to: usize, max: u32) -> (r: Option<u32>)
    requires
        from <= to <= s@.len(),
        max <= 0xFFFF,
    ensures
        match r {
            Some(v) => is_canonical_num(s@.subrange(from as int, to as int), max as int) && v
                == dec_val(s@.subrange(from as int, to as int)) && v <= max,
            None => !is_canonical_num(s@.subrange(from as int, to as int), max as int),
        },
{
    let ghost seg = s@.subrange(from as int, to as int);
    if to == from {
        return None;
    }
    if to - from > 1 && s.get_char(from) == '0' {
        proof {
            assert(seg[0] == '0');
        }
        return None;
    }
    let mut acc: u32 = 0;
    let mut i = from;
    while i < to
        invariant
            from < to <= s@.len(),
            from <= i <= to,
            max <= 0xFFFF,
            seg == s@.subrange(from as int, to as int),
            all_digits(seg.take(i - from)),
            acc == dec_val(seg.take(i - from)),
            acc <= max,
        decreases to - i,
    {
        let c = s.get_char(i);
        proof {
            assert(seg[i - from] == s@[i as int]);
        }
        if !(c >= '0' && c <= '9') {
            proof {
                assert(!is_digit(seg[i - from]));
            }
            return None;
        }
        let d = c as u32 - 48;
        let next = acc * 10 + d;
        proof {
            assert(seg.take(i - from + 1).drop_last() == seg.take(i - from));
            assert(seg.take(i - from + 1).last() == seg[i - from]);
            assert(dec_val(seg.take(i - from + 1)) == acc * 10 + digit_val(seg[i - from]));
        }
        if next > max {
            proof {
                if is_canonical_num(seg, max as int) {
                    lemma_dec_val_prefix(seg, i - from + 1);
                }
            }
            return None;
        }
        acc = next;
        i += 1;
    }
    proof {
        assert(seg.take(to - from) == seg);
    }
    Some(acc)
}

/// Parse `a.b.c.d:port`.
pub fn parse_endpoint(s: &str) -> (r: Option<Endpoint>)
    ensures
        r == spec_parse_endpoint(s@),
{
    let n = s.unicode_len();
    let d1 = find_from(s, 0, '.');
    if d1 == n {
        return None;
    }
    let d2 = find_from(s, d1 + 1, '.');
    if d2 == n {
        return None;
    }
    let d3 = find_from(s, d2 + 1, '.');
    if d3 == n {
        return None;
    }
    let c = find_from(s, d3 + 1, ':');
    if c == n {
        return None;
    }
    let ip0 = match parse_decimal(s, 0, d1, 255) {
        Some(v) => v,
        None => {
            return None;
        },
    };
    let ip1 = match parse_decimal(s, d1 + 1, d2, 255) {
        Some(v) => v,
        None => {
            return None;
        },
    };
    let ip2 = match parse_decimal(s, d2 + 1, d3, 255) {
        Some(v) => v,
        None => {
            return None;
        },
    };
    let ip3 = match parse_decimal(s, d3 + 1, c, 255) {
        Some(v) => v,
        None => {
            return None;
        },
    };
    let port = match parse_decimal(s, c + 1, n, 65535) {
        Some(v) => v,
        None => {
            return None;
        },
    };
    Some(
        Endpoint {
            ip0: ip0 as u8,
            ip1: ip1 as u8,
            ip2: ip2 as u8,
            ip3: ip3 as u8,
            port: port as u16,
        },
    )
}

/// Default endpoint - ip:port.
pub fn default_endpoint() -> (r: Endpoint)
    ensures
        r == (Endpoint { ip0: 0, ip1: 0, ip2: 0, ip3: 0, port: 10124 }),
{
    Endpoint { ip0: 0, ip1: 0, ip2: 0, ip3: 0, port: 10124 }
}

/// Append the default port to an endpoint string that has none.
pub fn canonicalize_endpoint(ep: String) -> (r: String)
    ensures
        r@ == spec_canonical(ep@),
{
    let has_port = {
        let s = ep.as_str();
        find_from(s, 0, ':') < s.unicode_len()
    };
    if has_port {
        ep
    } else {
        ep.concat(":10124")
    }
}

/// If the endpoint string is missing a port number then add the
/// default one, and parse the result.
pub fn endpoint(ep: String) -> (r: Endpoint)
    requires
        spec_parse_endpoint(spec_canonical(ep@)) is Some,
    ensures
        Some(r) == spec_parse_endpoint(spec_canonical(ep@)),
{
    let canon = canonicalize_endpoint(ep);
    match parse_endpoint(canon.as_str()) {
        Some(e) => e,
        None => {
            proof {
                assert(false);
            }
            Endpoint { ip0: 0, ip1: 0, ip2: 0, ip3: 0, port: 0 }
        },
    }
}

/// Parse the endpoint string, adding the default port if it is
/// missing; nothing if the result is no valid address.
pub fn try_endpoint(ep: String) -> (r: Option<Endpoint>)
    ensures
        r == spec_parse_endpoint(spec_canonical(ep@)),
{
    let canon = canonicalize_endpoint(ep);
    parse_endpoint(canon.as_str())
}

} // verus!
