//! Load-test targets: a host with an optional port, written as `hostname`,
//! `hostname:port`, an IPv4 address with or without a port, a bracketed IPv6
//! address with or without a port, and any of these behind `http://` or
//! `https://`. A port written in the target wins over the default port.
use vstd::prelude::*;
use vstd::string::StrSliceExecFns;
use vstd::string::StringExecFns;

use crate::numeric::{
    decimal_digits,
    is_digit,
    lemma_decimal_digits_value,
    parse_u16_range,
    parse_u16_spec,
    u16_to_decimal,
};
use crate::text::{
    count_char,
    first_index_of,
    lemma_count_concat,
    lemma_count_none,
    lemma_first_index_is,
    lemma_first_index_none,
    lemma_first_index_of,
    str_chars,
};

verus! {

broadcast use vstd::string::group_string_axioms;

/// Why a target was refused.
#[derive(Debug, Clone, Copy, PartialEq, Eq, Structural)]
pub enum TargetError {
    /// The text after the port separator is not a port number.
    InvalidPort,
    /// A bracketed IPv6 address is followed by something other than `:port`.
    InvalidIpv6Format,
    /// A `[` opens an IPv6 address that no `]` closes.
    MalformedIpv6,
    /// More than one `:` outside brackets.
    InvalidFormat,
}

/// `https://`
pub open spec fn https_scheme() -> Seq<char> {
    seq!['h', 't', 't', 'p', 's', ':', '/', '/']
}

/// `http://`
pub open spec fn http_scheme() -> Seq<char> {
    seq!['h', 't', 't', 'p', ':', '/', '/']
}

/// Does `s` begin with `p`?
pub open spec fn has_prefix(s: Seq<char>, p: Seq<char>) -> bool {
    p.len() <= s.len() && s.take(p.len() as int) == p
}

/// `str::trim_start_matches` with a text pattern: `s` without every leading
/// copy of `p`.
pub open spec fn strip_prefixes(s: Seq<char>, p: Seq<char>) -> Seq<char>
    decreases s.len(),
{
    if p.len() > 0 && has_prefix(s, p) {
        strip_prefixes(s.skip(p.len() as int), p)
    } else {
        s
    }
}

/// The target without its scheme: leading `https://` removed, then leading
/// `http://` removed.
pub open spec fn strip_scheme(t: Seq<char>) -> Seq<char> {
    strip_prefixes(strip_prefixes(t, https_scheme()), http_scheme())
}

/// The host and port that a target names, or why it names none.
///
/// After the scheme is removed: a text that starts with `[` is an IPv6
/// address up to the first `]` (brackets kept in the host), followed by
/// nothing (the default port) or by `:` and a port. Otherwise a text without
/// `:` is a host with the default port, one `:` separates host and port, and
/// more `:` are refused.
pub open spec fn parse_target_spec(t: Seq<char>, default_port: u16) -> Result<
    (Seq<char>, u16),
    TargetError,
> {
    parse_host_port_spec(strip_scheme(t), default_port)
}

/// Host and port of a target whose scheme is already removed.
pub open spec fn parse_host_port_spec(s: Seq<char>, default_port: u16) -> Result<
    (Seq<char>, u16),
    TargetError,
> {
    if s.len() > 0 && s[0] == '[' {
        parse_bracketed_spec(s, default_port)
    } else {
        parse_plain_spec(s, default_port)
    }
}

/// Host and port of `[address]` or `[address]:port`.
pub open spec fn parse_bracketed_spec(s: Seq<char>, default_port: u16) -> Result<
    (Seq<char>, u16),
    TargetError,
> {
    let k = first_index_of(s, ']');
        if k < 0 {
            Err(TargetError::MalformedIpv6)
        } else {
            let host = s.take(k + 1);
            let rest = s.skip(k + 1);
            if rest.len() > 0 && rest[0] == ':' {
                match parse_u16_spec(rest.drop_first()) {
                    Some(p) => Ok((host, p)),
                    None => Err(TargetError::InvalidPort),
                }
            } else if rest.len() == 0 {
                Ok((host, default_port))
            } else {
                Err(TargetError::InvalidIpv6Format)
            }
        }
}

/// Host and port of `host` or `host:port`.
pub open spec fn parse_plain_spec(s: Seq<char>, default_port: u16) -> Result<
    (Seq<char>, u16),
    TargetError,
> {
        let colons = count_char(s, ':');
        if colons == 0 {
            Ok((s, default_port))
        } else if colons == 1 {
            let k = first_index_of(s, ':');
            match parse_u16_spec(s.skip(k + 1)) {
                Some(p) => Ok((s.take(k), p)),
                None => Err(TargetError::InvalidPort),
            }
        } else {
            Err(TargetError::InvalidFormat)
        }
}

/// A parse result seen through the characters of its host.
pub open spec fn target_result_view(r: Result<(String, u16), TargetError>) -> Result<
    (Seq<char>, u16),
    TargetError,
> {
    match r {
        Ok((host, port)) => Ok((host@, port)),
        Err(e) => Err(e),
    }
}

/// The text `host:port` that names a socket address to resolve.
pub open spec fn authority_spec(host: Seq<char>, port: u16) -> Seq<char> {
    host + seq![':'] + decimal_digits(port as nat)
}

const HTTPS_SCHEME: [char; 8] = ['h', 't', 't', 'p', 's', ':', '/', '/'];

const HTTP_SCHEME: [char; 7] = ['h', 't', 't', 'p', ':', '/', '/'];

/// Does `s[at..]` begin with `p`?
fn matches_at(s: &Vec<char>, at: usize, p: &[char]) -> (r: bool)
    requires
        at <= s@.len(),
    ensures
        r == has_prefix(s@.skip(at as int), p@),
{
    let n = s.len();
    let m = p.len();
    if m > n - at {
        return false;
    }
    let mut i: usize = 0;
    while i < m
        invariant
            at <= n == s@.len(),
            m == p@.len(),
            m <= n - at,
            i <= m,
            forall|j: int| 0 <= j < i ==> s@[at + j] == p@[j],
        decreases m - i,
    {
        if s[at + i] != p[i] {
            assert(s@.skip(at as int).take(m as int)[i as int] != p@[i as int]);
            return false;
        }
        i = i + 1;
    }
    assert(s@.skip(at as int).take(m as int) =~= p@);
    true
}

/// Position just after the leading copies of `p` in `s[at..]`.
fn skip_prefixes(s: &Vec<char>, at: usize, p: &[char]) -> (r: usize)
    requires
        at <= s@.len(),
        p@.len() > 0,
    ensures
        at <= r <= s@.len(),
        s@.skip(r as int) == strip_prefixes(s@.skip(at as int), p@),
{
    let mut i = at;
    while matches_at(s, i, p)
        invariant
            at <= i <= s@.len(),
            p@.len() > 0,
            strip_prefixes(s@.skip(at as int), p@) == strip_prefixes(s@.skip(i as int), p@),
        decreases s@.len() - i,
    {
        let n = s.len();
        let m = p.len();
        assert(s@.skip(i as int).skip(p@.len() as int) =~= s@.skip(i + p@.len()));
        i = i + m;
    }
    i
}

/// The first position of `c` in `s[from..to]`, counted from `from`.
fn find_char(s: &Vec<char>, from: usize, to: usize, c: char) -> (r: Option<usize>)
    requires
        from <= to <= s@.len(),
    ensures
        match r {
            Some(k) => first_index_of(s@.subrange(from as int, to as int), c) == k,
            None => first_index_of(s@.subrange(from as int, to as int), c) == -1,
        },
{
    let ghost t = s@.subrange(from as int, to as int);
    let mut i = from;
    while i < to
        invariant
            from <= i <= to <= s@.len(),
            t == s@.subrange(from as int, to as int),
            forall|j: int| 0 <= j < i - from ==> t[j] != c,
        decreases to - i,
    {
        if s[i] == c {
            proof {
                lemma_first_index_is(t, c, i - from);
            }
            return Some(i - from);
        }
        i = i + 1;
    }
    proof {
        lemma_first_index_none(t, c);
    }
    None
}

/// How many `c` there are in `s[from..to]`.
fn count_char_in(s: &Vec<char>, from: usize, to: usize, c: char) -> (r: usize)
    requires
        from <= to <= s@.len(),
    ensures
        r == count_char(s@.subrange(from as int, to as int), c),
{
    let mut i = from;
    let mut n: usize = 0;
    assert(s@.subrange(from as int, from as int) =~= Seq::<char>::empty());
    while i < to
        invariant
            from <= i <= to <= s@.len(),
            n == count_char(s@.subrange(from as int, i as int), c),
            n <= i - from,
        decreases to - i,
    {
        assert(s@.subrange(from as int, i + 1).drop_last() =~= s@.subrange(from as int, i as int));
        if s[i] == c {
            n = n + 1;
        }
        i = i + 1;
    }
    n
}

/// The part `target[from..to]` as a `String`.
fn substring(target: &str, from: usize, to: usize) -> (r: String)
    requires
        from <= to <= target@.len(),
    ensures
        r@ == target@.subrange(from as int, to as int),
{
    target.substring_char(from, to).to_string()
}

/// Splits a load-test target into host and port.
///
/// Accepted forms: `hostname`, `hostname:port`, `127.0.0.1`,
/// `127.0.0.1:port`, `[::1]`, `[::1]:port`, each optionally behind `http://`
/// or `https://` (the scheme is dropped). A port written in the target takes
/// precedence over `default_port`. IPv6 hosts keep their brackets.
pub fn parse_target(target: &str, default_port: u16) -> (r: Result<(String, u16), TargetError>)
    ensures
        target_result_view(r) == parse_target_spec(target@, default_port),
{
    let chars = str_chars(target);
    let n = chars.len();
    assert(chars@.skip(0) =~= chars@);
    let https = HTTPS_SCHEME.as_slice();
    let http = HTTP_SCHEME.as_slice();
    assert(https@ =~= https_scheme());
    assert(http@ =~= http_scheme());
    let after_https = skip_prefixes(&chars, 0, https);
    let start = skip_prefixes(&chars, after_https, http);
    assert(chars@.skip(start as int) =~= chars@.subrange(start as int, n as int));
    if start < n && chars[start] == '[' {
        parse_bracketed(target, &chars, start, default_port)
    } else {
        parse_plain(target, &chars, start, default_port)
    }
}

/// `parse_bracketed_spec` of `target[start..]`.
fn parse_bracketed(target: &str, chars: &Vec<char>, start: usize, default_port: u16) -> (r: Result<
    (String, u16),
    TargetError,
>)
    requires
        chars@ == target@,
        start <= target@.len(),
    ensures
        target_result_view(r) == parse_bracketed_spec(target@.skip(start as int), default_port),
{
    let n = chars.len();
    let ghost s = chars@.skip(start as int);
    assert(s =~= chars@.subrange(start as int, n as int));
    match find_char(chars, start, n, ']') {
        None => Err(TargetError::MalformedIpv6),
        Some(k) => {
            proof {
                lemma_first_index_of(s, ']');
            }
            let host_end = start + k + 1;
            let host = substring(target, start, host_end);
            assert(host@ =~= s.take(k + 1));
            let ghost rest = s.skip(k + 1);
            assert(rest =~= chars@.subrange(host_end as int, n as int));
            if host_end < n && chars[host_end] == ':' {
                assert(rest.drop_first() =~= chars@.subrange(host_end + 1, n as int));
                match parse_u16_range(chars, host_end + 1, n) {
                    Some(p) => Ok((host, p)),
                    None => Err(TargetError::InvalidPort),
                }
            } else if host_end == n {
                Ok((host, default_port))
            } else {
                Err(TargetError::InvalidIpv6Format)
            }
        },
    }
}

/// `parse_plain_spec` of `target[start..]`.
fn parse_plain(target: &str, chars: &Vec<char>, start: usize, default_port: u16) -> (r: Result<
    (String, u16),
    TargetError,
>)
    requires
        chars@ == target@,
        start <= target@.len(),
    ensures
        target_result_view(r) == parse_plain_spec(target@.skip(start as int), default_port),
{
    let n = chars.len();
    let ghost s = chars@.skip(start as int);
    assert(s =~= chars@.subrange(start as int, n as int));
    let colons = count_char_in(chars, start, n, ':');
    if colons == 0 {
        let host = substring(target, start, n);
        Ok((host, default_port))
    } else if colons == 1 {
        match find_char(chars, start, n, ':') {
            Some(k) => {
                proof {
                    lemma_first_index_of(s, ':');
                }
                let host = substring(target, start, start + k);
                assert(host@ =~= s.take(k as int));
                assert(s.skip(k + 1) =~= chars@.subrange(start + k + 1, n as int));
                match parse_u16_range(chars, start + k + 1, n) {
                    Some(p) => Ok((host, p)),
                    None => Err(TargetError::InvalidPort),
                }
            },
            None => {
                proof {
                    lemma_first_index_of(s, ':');
                    lemma_count_none(s, ':');
                }
                Err(TargetError::InvalidFormat)
            },
        }
    } else {
        Err(TargetError::InvalidFormat)
    }
}

/// The text `host:port` that the resolver is asked for.
pub fn authority(host: &str, port: u16) -> (r: String)
    ensures
        r@ == authority_spec(host@, port),
{
    let mut r = host.to_string();
    let sep = ":";
    proof {
        reveal_strlit(":");
    }
    r.append(sep);
    let digits = u16_to_decimal(port);
    r.append(digits.as_str());
    r
}

/// A host that names no port of its own: no `:`, and no `[` in front.
pub open spec fn is_plain_host(h: Seq<char>) -> bool {
    &&& forall|i: int| 0 <= i < h.len() ==> h[i] != ':'
    &&& h.len() > 0 ==> h[0] != '['
}

/// A bracketed IPv6 host: `[`, an address without `]`, and `]`.
pub open spec fn is_bracketed_host(h: Seq<char>) -> bool {
    &&& h.len() >= 2
    &&& h[0] == '['
    &&& h.last() == ']'
    &&& forall|i: int| 0 <= i < h.len() - 1 ==> h[i] != ']'
}

/// A text that starts with a digit, or a colon at a position before 5,
/// begins with neither scheme.
proof fn lemma_no_scheme(s: Seq<char>, k: int)
    requires
        0 <= k < s.len(),
        s[k] == ':',
        forall|i: int| 0 <= i < k ==> s[i] != ':',
        k + 1 < s.len() ==> is_digit(s[k + 1]),
    ensures
        !has_prefix(s, https_scheme()),
        !has_prefix(s, http_scheme()),
{
    if has_prefix(s, https_scheme()) {
        assert(s[5] == s.take(8)[5]);
        assert(s[6] == s.take(8)[6]);
        if k < 5 {
            assert(s[k] == s.take(8)[k]);
        }
    }
    if has_prefix(s, http_scheme()) {
        assert(s[4] == s.take(7)[4]);
        assert(s[5] == s.take(7)[5]);
        if k < 4 {
            assert(s[k] == s.take(7)[k]);
        }
    }
}

/// Reading back the `host:port` text of a host and a port gives that host
/// and that port, whatever the default port, for a plain host and for a
/// bracketed IPv6 host.
pub proof fn law_authority_round_trip(host: Seq<char>, port: u16, default_port: u16)
    requires
        is_plain_host(host) || is_bracketed_host(host),
    ensures
        parse_target_spec(authority_spec(host, port), default_port) == Ok::<(Seq<char>, u16), TargetError>((host, port)),
{
    let d = decimal_digits(port as nat);
    let s = authority_spec(host, port);
    let h: int = host.len() as int;
    lemma_decimal_digits_value(port as nat);
    assert(s.len() == h + 1 + d.len());
    assert forall|i: int| 0 <= i < d.len() implies #[trigger] s[h + 1 + i] == d[i] by {}
    assert(s[h] == ':');
    assert(is_digit(d[0]));
    if is_bracketed_host(host) {
        assert(s[0] == '[');
        assert(!has_prefix(s, https_scheme())) by {
            if has_prefix(s, https_scheme()) {
                assert(s[0] == s.take(8)[0]);
            }
        }
        assert(!has_prefix(s, http_scheme())) by {
            if has_prefix(s, http_scheme()) {
                assert(s[0] == s.take(7)[0]);
            }
        }
        assert(strip_scheme(s) == s);
        lemma_first_index_is(s, ']', h - 1);
        assert(s.take(h) =~= host);
        assert(s.skip(h).drop_first() =~= d);
        assert(s.skip(h)[0] == ':');
    } else {
        lemma_no_scheme(s, h);
        assert(strip_scheme(s) == s);
        assert(s.len() > 0 && s[0] == '[' ==> false) by {
            if h == 0 {
                assert(s[0] == ':');
            }
        }
        lemma_first_index_is(s, ':', h);
        assert(forall|i: int| 0 <= i < d.len() ==> #[trigger] is_digit(d[i]));
        lemma_count_none(host, ':');
        assert forall|j: int| 0 <= j < d.len() implies d[j] != ':' by {
            assert(is_digit(d[j]));
        }
        lemma_count_none(d, ':');
        lemma_count_concat(host, seq![':'], ':');
        lemma_count_concat(host + seq![':'], d, ':');
        assert(count_char(seq![':'], ':') == 1) by {
            assert(seq![':'].drop_last() =~= Seq::<char>::empty());
            assert(count_char(Seq::<char>::empty(), ':') == 0);
            assert(seq![':'].last() == ':');
        }
        assert(s.take(h) =~= host);
        assert(s.skip(h + 1) =~= d);
    }
}

/// A target without a port of its own gets the default port: a plain host,
/// or a bracketed IPv6 host with nothing after its `]`, parses to itself
/// and the default port passed in.
pub proof fn law_default_port_without_embedded_port(host: Seq<char>, default_port: u16)
    requires
        is_plain_host(host) || is_bracketed_host(host),
    ensures
        parse_target_spec(host, default_port) == Ok::<(Seq<char>, u16), TargetError>((host, default_port)),
{
    let h: int = host.len() as int;
    if is_bracketed_host(host) {
        assert(!has_prefix(host, https_scheme())) by {
            if has_prefix(host, https_scheme()) {
                assert(host[0] == host.take(8)[0]);
            }
        }
        assert(!has_prefix(host, http_scheme())) by {
            if has_prefix(host, http_scheme()) {
                assert(host[0] == host.take(7)[0]);
            }
        }
        assert(strip_scheme(host) == host);
        assert(host[h - 1] == ']');
        lemma_first_index_is(host, ']', h - 1);
        assert(host.take(h) =~= host);
        assert(host.skip(h).len() == 0);
    } else {
        assert(!has_prefix(host, https_scheme())) by {
            if has_prefix(host, https_scheme()) {
                assert(host[5] == host.take(8)[5]);
            }
        }
        assert(!has_prefix(host, http_scheme())) by {
            if has_prefix(host, http_scheme()) {
                assert(host[4] == host.take(7)[4]);
            }
        }
        assert(strip_scheme(host) == host);
        lemma_count_none(host, ':');
    }
}

/// A port written in the target wins over the default port: with another
/// default port the target parses to the same host and is refused for the
/// same reason, and the port is either the written one (the same for both
/// defaults) or each default itself.
pub proof fn law_embedded_port_precedence(t: Seq<char>, d1: u16, d2: u16)
    ensures
        match (parse_target_spec(t, d1), parse_target_spec(t, d2)) {
            (Ok((h1, p1)), Ok((h2, p2))) => h1 == h2 && (p1 == p2 || (p1 == d1 && p2 == d2)),
            (Err(e1), Err(e2)) => e1 == e2,
            _ => false,
        },
{
}

/// An `https://` in front of a target changes nothing; neither does an
/// `http://`, unless what follows begins with `https://`.
pub proof fn law_scheme_is_ignored(x: Seq<char>, default_port: u16)
    ensures
        parse_target_spec(https_scheme() + x, default_port) == parse_target_spec(x, default_port),
        !has_prefix(x, https_scheme()) ==> parse_target_spec(http_scheme() + x, default_port)
            == parse_target_spec(x, default_port),
{
    let a = https_scheme() + x;
    assert(a.take(8) =~= https_scheme());
    assert(a.skip(8) =~= x);
    assert(strip_prefixes(a, https_scheme()) == strip_prefixes(x, https_scheme()));
    let b = http_scheme() + x;
    assert(b.take(7) =~= http_scheme());
    assert(b.skip(7) =~= x);
    assert(!has_prefix(b, https_scheme())) by {
        if has_prefix(b, https_scheme()) {
            assert(b[4] == b.take(8)[4]);
        }
    }
    assert(strip_prefixes(b, http_scheme()) == strip_prefixes(x, http_scheme()));
}

} // verus!
