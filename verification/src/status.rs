//! HTTP status codes: which ones a success pattern accepts, how they are
//! classed in the report, and how many responses carried each.
use std::collections::HashMap;
use vstd::prelude::*;

use crate::numeric::{
    decimal_digits,
    is_digit,
    lemma_decimal_digits_value,
    lemma_parse_decimal_digits,
    parse_u16_range,
    parse_u16_spec,
};
use crate::text::{
    all_whitespace,
    is_whitespace,
    lemma_trim_of,
    lemma_trim_split,
    split_on,
    str_chars,
    trim,
    trim_bounds,
};

verus! {

broadcast use vstd::std_specs::hash::group_hash_axioms;

/// `2xx`, `3xx`, `4xx` or `5xx` as characters.
pub open spec fn class_pattern(first: char) -> Seq<char> {
    seq![first, 'x', 'x']
}

/// Does one (trimmed) piece of a success pattern accept `code`?
///
/// `2xx` accepts 200 to 299, `3xx` 300 to 399, `4xx` 400 to 499, `5xx` 500
/// to 599, and a piece that reads as a `u16` accepts that code.
pub open spec fn piece_accepts(piece: Seq<char>, code: u16) -> bool {
    ||| piece == class_pattern('2') && 200 <= code < 300
    ||| piece == class_pattern('3') && 300 <= code < 400
    ||| piece == class_pattern('4') && 400 <= code < 500
    ||| piece == class_pattern('5') && 500 <= code < 600
    ||| parse_u16_spec(piece) == Some(code)
}

/// Does the success pattern accept `code`? The pattern is split at every
/// `,`, each piece is trimmed of whitespace, and the code is a success when
/// some piece accepts it.
pub open spec fn success_status_spec(code: u16, pattern: Seq<char>) -> bool {
    let pieces = split_on(pattern, ',');
    exists|i: int| 0 <= i < pieces.len() && piece_accepts(trim(#[trigger] pieces[i]), code)
}

/// Whether the trimmed piece `s[start..end]` accepts `code`.
fn piece_matches(s: &Vec<char>, start: usize, end: usize, code: u16) -> (r: bool)
    requires
        start <= end <= s@.len(),
    ensures
        r == piece_accepts(trim(s@.subrange(start as int, end as int)), code),
{
    let (a, b) = trim_bounds(s, start, end);
    let ghost p = s@.subrange(a as int, b as int);
    let mut class_ok = false;
    if b - a == 3 && s[a + 1] == 'x' && s[a + 2] == 'x' {
        let first = s[a];
        assert(p =~= class_pattern(first));
        class_ok = (first == '2' && 200 <= code && code < 300) || (first == '3' && 300 <= code && code
            < 400) || (first == '4' && 400 <= code && code < 500) || (first == '5' && 500 <= code && code
            < 600);
    } else {
        assert(p != class_pattern('2') && p != class_pattern('3') && p != class_pattern('4') && p
            != class_pattern('5')) by {
            if p.len() == 3 {
                assert(p[1] == s@[a + 1]);
                assert(p[2] == s@[a + 2]);
                assert(class_pattern('2')[1] == 'x' && class_pattern('2')[2] == 'x');
            }
        }
    }
    if class_ok {
        return true;
    }
    match parse_u16_range(s, a, b) {
        Some(v) => v == code,
        None => false,
    }
}

/// The pieces of a text, split at `sep`, are never none.
proof fn lemma_split_nonempty(s: Seq<char>, sep: char)
    ensures
        split_on(s, sep).len() >= 1,
    decreases s.len(),
{
    if s.len() > 0 {
        lemma_split_nonempty(s.drop_last(), sep);
    }
}

/// Is `status_code` a success under `success_pattern`?
///
/// Patterns are class patterns (`2xx`, `3xx`, `4xx`, `5xx`), specific codes
/// (`200,201,301`), or a mix (`2xx,3xx,500`), separated by commas; spaces
/// around each piece do not matter.
pub fn is_success_status(status_code: u16, success_pattern: &str) -> (r: bool)
    ensures
        r == success_status_spec(status_code, success_pattern@),
{
    let s = str_chars(success_pattern);
    let n = s.len();
    let mut start: usize = 0;
    let mut found = false;
    let mut i: usize = 0;
    assert(s@.take(0) =~= Seq::<char>::empty());
    assert(s@.subrange(0, 0) =~= Seq::<char>::empty());
    while i < n
        invariant
            n == s@.len(),
            start <= i <= n,
            split_on(s@.take(i as int), ',').len() >= 1,
            split_on(s@.take(i as int), ',').last() == s@.subrange(start as int, i as int),
            found == exists|j: int|
                0 <= j < split_on(s@.take(i as int), ',').len() - 1 && piece_accepts(
                    trim(#[trigger] split_on(s@.take(i as int), ',')[j]),
                    status_code,
                ),
        decreases n - i,
    {
        let ghost before = split_on(s@.take(i as int), ',');
        let ghost t = s@.take(i + 1);
        assert(t.drop_last() =~= s@.take(i as int));
        assert(t.last() == s@[i as int]);
        let ghost after = split_on(t, ',');
        if s[i] == ',' {
            let ok = piece_matches(&s, start, i, status_code);
            assert(after == before.push(Seq::<char>::empty()));
            assert(after.last() =~= s@.subrange(i + 1, i + 1));
            assert((found || ok) == exists|j: int|
                0 <= j < after.len() - 1 && piece_accepts(trim(#[trigger] after[j]), status_code)) by {
                if found || ok {
                    if found {
                        let j = choose|j: int|
                            0 <= j < before.len() - 1 && piece_accepts(
                                trim(#[trigger] before[j]),
                                status_code,
                            );
                        assert(after[j] == before[j]);
                    } else {
                        assert(after[before.len() - 1] == before.last());
                    }
                }
                if exists|j: int|
                    0 <= j < after.len() - 1 && piece_accepts(trim(#[trigger] after[j]), status_code) {
                    let j = choose|j: int|
                        0 <= j < after.len() - 1 && piece_accepts(
                            trim(#[trigger] after[j]),
                            status_code,
                        );
                    assert(after[j] == before[j]);
                }
            }
            found = found || ok;
            start = i + 1;
        } else {
            assert(after == before.update(before.len() - 1, before.last().push(s@[i as int])));
            assert(after.last() =~= s@.subrange(start as int, i + 1));
            assert(found == exists|j: int|
                0 <= j < after.len() - 1 && piece_accepts(trim(#[trigger] after[j]), status_code)) by {
                if found {
                    let j = choose|j: int|
                        0 <= j < before.len() - 1 && piece_accepts(
                            trim(#[trigger] before[j]),
                            status_code,
                        );
                    assert(after[j] == before[j]);
                }
                if exists|j: int|
                    0 <= j < after.len() - 1 && piece_accepts(trim(#[trigger] after[j]), status_code) {
                    let j = choose|j: int|
                        0 <= j < after.len() - 1 && piece_accepts(
                            trim(#[trigger] after[j]),
                            status_code,
                        );
                    assert(after[j] == before[j]);
                }
            }
        }
        i = i + 1;
    }
    let last_ok = piece_matches(&s, start, n, status_code);
    let ghost pieces = split_on(s@.take(n as int), ',');
    assert(s@.take(n as int) =~= success_pattern@);
    assert((found || last_ok) == exists|j: int|
        0 <= j < pieces.len() && piece_accepts(trim(#[trigger] pieces[j]), status_code)) by {
        if last_ok {
            assert(pieces[pieces.len() - 1] == pieces.last());
        }
    }
    found || last_ok
}

/// Splitting around one separator splits each side.
proof fn lemma_split_around(a: Seq<char>, b: Seq<char>, sep: char)
    ensures
        split_on(a + seq![sep] + b, sep) == split_on(a, sep) + split_on(b, sep),
    decreases b.len(),
{
    let s = a + seq![sep] + b;
    if b.len() == 0 {
        assert(s.drop_last() =~= a);
        assert(s.last() == sep);
        assert(split_on(b, sep) == seq![Seq::<char>::empty()]);
        assert(split_on(a, sep).push(Seq::<char>::empty()) =~= split_on(a, sep) + seq![
            Seq::<char>::empty(),
        ]);
    } else {
        lemma_split_around(a, b.drop_last(), sep);
        lemma_split_nonempty(b.drop_last(), sep);
        assert(s.drop_last() =~= a + seq![sep] + b.drop_last());
        assert(s.last() == b.last());
        let x = split_on(a, sep);
        let y = split_on(b.drop_last(), sep);
        if b.last() == sep {
            assert((x + y).push(Seq::<char>::empty()) =~= x + y.push(Seq::<char>::empty()));
        } else {
            assert((x + y).last() == y.last());
            assert((x + y).update((x + y).len() - 1, y.last().push(b.last())) =~= x + y.update(
                y.len() - 1,
                y.last().push(b.last()),
            ));
        }
    }
}

/// A text without the separator is one piece.
proof fn lemma_split_single(s: Seq<char>, sep: char)
    requires
        forall|i: int| 0 <= i < s.len() ==> s[i] != sep,
    ensures
        split_on(s, sep) == seq![s],
    decreases s.len(),
{
    if s.len() > 0 {
        lemma_split_single(s.drop_last(), sep);
        assert(s.drop_last().push(s.last()) =~= s);
        assert(s.last() != sep);
        assert(seq![s.drop_last()].update(0, s) =~= seq![s]);
    } else {
        assert(s =~= Seq::<char>::empty());
    }
}

/// A pattern made of two patterns joined by a comma accepts exactly the
/// codes that either of them accepts.
pub proof fn law_pattern_union(code: u16, a: Seq<char>, b: Seq<char>)
    ensures
        success_status_spec(code, a + seq![','] + b) == (success_status_spec(code, a)
            || success_status_spec(code, b)),
{
    lemma_split_around(a, b, ',');
    let x = split_on(a, ',');
    let y = split_on(b, ',');
    let z = x + y;
    if success_status_spec(code, a + seq![','] + b) {
        let i = choose|i: int| 0 <= i < z.len() && piece_accepts(trim(#[trigger] z[i]), code);
        if i < x.len() {
            assert(z[i] == x[i]);
        } else {
            assert(z[i] == y[i - x.len()]);
        }
    }
    if success_status_spec(code, a) {
        let i = choose|i: int| 0 <= i < x.len() && piece_accepts(trim(#[trigger] x[i]), code);
        assert(z[i] == x[i]);
    }
    if success_status_spec(code, b) {
        let i = choose|i: int| 0 <= i < y.len() && piece_accepts(trim(#[trigger] y[i]), code);
        assert(z[x.len() + i] == y[i]);
    }
}

/// Whitespace around a piece of a success pattern does not matter: with
/// any whitespace before and after it, a piece without `,` accepts exactly
/// the codes that it accepts alone.
pub proof fn law_whitespace_around_piece(code: u16, w1: Seq<char>, p: Seq<char>, w2: Seq<char>)
    requires
        all_whitespace(w1),
        all_whitespace(w2),
        forall|i: int| 0 <= i < p.len() ==> p[i] != ',',
    ensures
        success_status_spec(code, w1 + p + w2) == success_status_spec(code, p),
{
    let x = w1 + p + w2;
    assert forall|i: int| 0 <= i < x.len() implies x[i] != ',' by {
        if i < w1.len() {
            assert(is_whitespace(w1[i]));
        } else if i < w1.len() + p.len() {
            assert(x[i] == p[i - w1.len()]);
        } else {
            assert(x[i] == w2[i - w1.len() - p.len()]);
            assert(is_whitespace(w2[i - w1.len() - p.len()]));
        }
    }
    lemma_split_single(x, ',');
    lemma_split_single(p, ',');
    let (a, b) = lemma_trim_split(p);
    let u = w1 + p.take(a);
    let v = p.skip(b) + w2;
    assert(x =~= u + p.subrange(a, b) + v);
    assert(all_whitespace(u)) by {
        assert forall|i: int| 0 <= i < u.len() implies #[trigger] is_whitespace(u[i]) by {
            if i < w1.len() {
                assert(u[i] == w1[i]);
            } else {
                assert(u[i] == p.take(a)[i - w1.len()]);
            }
        }
    }
    assert(all_whitespace(v)) by {
        assert forall|i: int| 0 <= i < v.len() implies #[trigger] is_whitespace(v[i]) by {
            if i < p.skip(b).len() {
                assert(v[i] == p.skip(b)[i]);
            } else {
                assert(v[i] == w2[i - p.skip(b).len()]);
            }
        }
    }
    lemma_trim_of(u, trim(p), v);
    assert(split_on(x, ',')[0] == x);
    assert(split_on(p, ',')[0] == p);
}

/// A piece with neither whitespace at its start nor at its end is its own
/// trimmed form.
proof fn lemma_trim_unchanged(s: Seq<char>)
    requires
        s.len() > 0,
        !is_whitespace(s[0]),
        !is_whitespace(s.last()),
    ensures
        trim(s) == s,
{
}

/// The class pattern `Dxx` (D from 2 to 5) accepts exactly the codes from
/// D00 to D99.
pub proof fn law_class_pattern(code: u16, first: char, low: u16)
    requires
        (first == '2' && low == 200) || (first == '3' && low == 300) || (first == '4' && low == 400)
            || (first == '5' && low == 500),
    ensures
        success_status_spec(code, class_pattern(first)) == (low <= code < low + 100),
{
    let p = class_pattern(first);
    lemma_split_single(p, ',');
    lemma_trim_unchanged(p);
    assert(parse_u16_spec(p) is None) by {
        assert(!is_digit(p[1]));
        assert(!is_digit(p[2]));
        if p[0] == '+' {
            assert(p.drop_first()[0] == 'x');
        }
    }
    assert(split_on(p, ',')[0] == p);
}

/// A pattern of one code accepts exactly that code.
pub proof fn law_single_code_pattern(code: u16, n: u16)
    ensures
        success_status_spec(code, decimal_digits(n as nat)) == (code == n),
{
    let p = decimal_digits(n as nat);
    lemma_decimal_digits_value(n as nat);
    lemma_parse_decimal_digits(n);
    assert(forall|i: int| 0 <= i < p.len() ==> #[trigger] is_digit(p[i]));
    assert(forall|i: int| 0 <= i < p.len() ==> p[i] != ',') by {
        assert forall|i: int| 0 <= i < p.len() implies p[i] != ',' by {
            assert(is_digit(p[i]));
        }
    }
    lemma_split_single(p, ',');
    assert(is_digit(p[0]) && is_digit(p.last())) by {
        assert(is_digit(p[p.len() - 1]));
    }
    lemma_trim_unchanged(p);
    assert(p != class_pattern('2') && p != class_pattern('3') && p != class_pattern('4') && p
        != class_pattern('5')) by {
        if p.len() == 3 {
            assert(is_digit(p[1]));
            assert(class_pattern('2')[1] == 'x');
        }
    }
    assert(split_on(p, ',')[0] == p);
}

/// How the report names a status code.
#[derive(Debug, Clone, Copy, PartialEq, Eq, Structural)]
pub enum StatusClass {
    /// 200 to 299.
    Success,
    /// 300 to 399.
    Redirect,
    /// 400 to 499.
    ClientError,
    /// 500 to 599.
    ServerError,
    /// Any other code.
    Unknown,
}

/// The class of a status code.
pub open spec fn class_of(code: u16) -> StatusClass {
    if 200 <= code <= 299 {
        StatusClass::Success
    } else if 300 <= code <= 399 {
        StatusClass::Redirect
    } else if 400 <= code <= 499 {
        StatusClass::ClientError
    } else if 500 <= code <= 599 {
        StatusClass::ServerError
    } else {
        StatusClass::Unknown
    }
}

/// Every code from 200 to 299 is a success, from 300 to 399 a redirect,
/// from 400 to 499 a client error, from 500 to 599 a server error, and every
/// other code is unknown.
pub proof fn law_status_classes(code: u16)
    ensures
        200 <= code <= 299 ==> class_of(code) == StatusClass::Success,
        300 <= code <= 399 ==> class_of(code) == StatusClass::Redirect,
        400 <= code <= 499 ==> class_of(code) == StatusClass::ClientError,
        500 <= code <= 599 ==> class_of(code) == StatusClass::ServerError,
        code < 200 || code > 599 ==> class_of(code) == StatusClass::Unknown,
{
}

/// The class of a status code, for the report.
pub fn classify_status(code: u16) -> (r: StatusClass)
    ensures
        r == class_of(code),
{
    if 200 <= code && code <= 299 {
        StatusClass::Success
    } else if 300 <= code && code <= 399 {
        StatusClass::Redirect
    } else if 400 <= code && code <= 499 {
        StatusClass::ClientError
    } else if 500 <= code && code <= 599 {
        StatusClass::ServerError
    } else {
        StatusClass::Unknown
    }
}

impl StatusClass {
    /// The label that the report prints beside a code of this class.
    pub fn description(&self) -> (r: &'static str)
        ensures
            *self == StatusClass::Success ==> r@ == "2xx Success"@,
            *self == StatusClass::Redirect ==> r@ == "3xx Redirect"@,
            *self == StatusClass::ClientError ==> r@ == "4xx Client Error"@,
            *self == StatusClass::ServerError ==> r@ == "5xx Server Error"@,
            *self == StatusClass::Unknown ==> r@ == "Unknown"@,
    {
        match self {
            StatusClass::Success => "2xx Success",
            StatusClass::Redirect => "3xx Redirect",
            StatusClass::ClientError => "4xx Client Error",
            StatusClass::ServerError => "5xx Server Error",
            StatusClass::Unknown => "Unknown",
        }
    }
}

/// How many responses carried each status code.
pub struct StatusCounts {
    counts: HashMap<u16, usize>,
}

impl View for StatusCounts {
    type V = Map<u16, usize>;

    closed spec fn view(&self) -> Map<u16, usize> {
        self.counts@
    }
}

/// The count of `code` in `m`, 0 when `code` was never recorded.
pub open spec fn count_in(m: Map<u16, usize>, code: u16) -> nat {
    if m.contains_key(code) {
        m[code] as nat
    } else {
        0
    }
}

/// `m` with `n` more responses of `code`; `code` is recorded even when
/// `n` is 0.
pub open spec fn add_count(m: Map<u16, usize>, code: u16, n: usize) -> Map<u16, usize> {
    m.insert(code, (count_in(m, code) + n) as usize)
}

/// `a` and `b` added code by code; a code recorded in either is recorded.
pub open spec fn merge_counts(a: Map<u16, usize>, b: Map<u16, usize>) -> Map<u16, usize> {
    Map::new(
        |c: u16| a.contains_key(c) || b.contains_key(c),
        |c: u16| (count_in(a, c) + count_in(b, c)) as usize,
    )
}

/// Adding up status counts does not depend on the order: the totals of a
/// run are the same whichever worker reports first (for counts that fit in
/// `usize`, the only ones that `merge` adds).
pub proof fn law_merge_order_free(a: Map<u16, usize>, b: Map<u16, usize>, c: Map<u16, usize>)
    requires
        forall|k: u16| count_in(a, k) + count_in(b, k) + count_in(c, k) <= usize::MAX,
    ensures
        merge_counts(a, b) == merge_counts(b, a),
        merge_counts(merge_counts(a, b), c) == merge_counts(a, merge_counts(b, c)),
        merge_counts(a, Map::<u16, usize>::empty()) == a,
{
    assert(merge_counts(a, b) =~= merge_counts(b, a));
    let ab = merge_counts(a, b);
    let bc = merge_counts(b, c);
    assert forall|k: u16| #[trigger] count_in(ab, k) == count_in(a, k) + count_in(b, k) by {}
    assert forall|k: u16| #[trigger] count_in(bc, k) == count_in(b, k) + count_in(c, k) by {}
    assert(merge_counts(ab, c) =~= merge_counts(a, bc));
    assert(merge_counts(a, Map::<u16, usize>::empty()) =~= a);
}

/// The recorded codes with their counts, in increasing order of code.
pub open spec fn is_sorted_listing(m: Map<u16, usize>, l: Seq<(u16, usize)>) -> bool {
    &&& forall|i: int| 0 <= i < l.len() ==> m.contains_key(#[trigger] l[i].0) && m[l[i].0] == l[i].1
    &&& forall|i: int, j: int| 0 <= i < j < l.len() ==> #[trigger] l[i].0 < #[trigger] l[j].0
    &&& forall|c: u16| m.contains_key(c) ==> exists|i: int| 0 <= i < l.len() && #[trigger] l[i].0 == c
}

impl StatusCounts {
    /// No code recorded.
    pub fn new() -> (r: StatusCounts)
        ensures
            r@ == Map::<u16, usize>::empty(),
    {
        StatusCounts { counts: HashMap::new() }
    }

    /// Has no code been recorded?
    pub fn is_empty(&self) -> (r: bool)
        ensures
            r == (self@.dom() == Set::<u16>::empty()),
    {
        let r = self.counts.is_empty();
        proof {
            if !r {
                assert(self@.dom() != Set::<u16>::empty()) by {
                    assert(!self@.is_empty());
                }
            } else {
                assert(self@.dom() =~= Set::<u16>::empty());
            }
        }
        r
    }

    /// How many responses carried `code`.
    pub fn count(&self, code: u16) -> (r: usize)
        ensures
            r == count_in(self@, code),
    {
        match self.counts.get(&code) {
            Some(v) => *v,
            None => 0,
        }
    }

    /// Records `n` more responses with `code`.
    pub fn record(&mut self, code: u16, n: usize)
        requires
            count_in(old(self)@, code) + n <= usize::MAX,
        ensures
            final(self)@ == add_count(old(self)@, code, n),
    {
        let c = self.count(code);
        self.counts.insert(code, c + n);
    }

    /// The recorded codes with their counts, in increasing order of code.
    pub fn sorted_entries(&self) -> (r: Vec<(u16, usize)>)
        ensures
            is_sorted_listing(self@, r@),
    {
        let mut r: Vec<(u16, usize)> = Vec::new();
        let mut code: u32 = 0;
        while code <= 0xffff
            invariant
                code <= 0x10000,
                forall|i: int| 0 <= i < r@.len() ==> self@.contains_key(#[trigger] r@[i].0) && self@[r@[i].0]
                    == r@[i].1 && r@[i].0 < code,
                forall|i: int, j: int| 0 <= i < j < r@.len() ==> #[trigger] r@[i].0 < #[trigger] r@[j].0,
                forall|c: u16|
                    self@.contains_key(c) && c < code ==> exists|i: int|
                        0 <= i < r@.len() && #[trigger] r@[i].0 == c,
            decreases 0x10000 - code,
        {
            let c = code as u16;
            match self.counts.get(&c) {
                Some(v) => {
                    let ghost before = r@;
                    r.push((c, *v));
                    assert forall|d: u16| self@.contains_key(d) && d < code + 1 implies exists|i: int|
                        0 <= i < r@.len() && #[trigger] r@[i].0 == d by {
                        if d < code {
                            let i = choose|i: int| 0 <= i < before.len() && #[trigger] before[i].0 == d;
                            assert(r@[i] == before[i]);
                        } else {
                            assert(r@[before.len() as int].0 == d);
                        }
                    }
                },
                None => {},
            }
            code = code + 1;
        }
        r
    }

    /// Adds every count of `other` to this one.
    pub fn merge(&mut self, other: &StatusCounts)
        requires
            forall|c: u16| count_in(old(self)@, c) + count_in(other@, c) <= usize::MAX,
        ensures
            final(self)@ == merge_counts(old(self)@, other@),
    {
        let entries = other.sorted_entries();
        let ghost start = self@;
        let mut i: usize = 0;
        while i < entries.len()
            invariant
                i <= entries@.len(),
                is_sorted_listing(other@, entries@),
                forall|c: u16| count_in(start, c) + count_in(other@, c) <= usize::MAX,
                forall|c: u16|
                    #![trigger self@.contains_key(c)]
                    #![trigger count_in(self@, c)]
                    if exists|k: int| 0 <= k < i && #[trigger] entries@[k].0 == c {
                        self@.contains_key(c) && count_in(self@, c) == count_in(start, c) + count_in(other@, c)
                    } else {
                        self@.contains_key(c) == start.contains_key(c) && count_in(self@, c) == count_in(start, c)
                    },
            decreases entries@.len() - i,
        {
            let (c, n) = entries[i];
            assert(entries@[i as int].0 == c);
            assert(!exists|k: int| 0 <= k < i && #[trigger] entries@[k].0 == c) by {
                if exists|k: int| 0 <= k < i && #[trigger] entries@[k].0 == c {
                    let k = choose|k: int| 0 <= k < i && #[trigger] entries@[k].0 == c;
                    assert(entries@[k].0 < entries@[i as int].0);
                }
            }
            self.record(c, n);
            i = i + 1;
        }
        assert(self@ =~= merge_counts(start, other@)) by {
            assert forall|c: u16| #[trigger] self@.contains_key(c) == merge_counts(start, other@).contains_key(c) by {
                if other@.contains_key(c) {
                    let k = choose|k: int| 0 <= k < entries@.len() && #[trigger] entries@[k].0 == c;
                    assert(exists|k: int| 0 <= k < i && #[trigger] entries@[k].0 == c);
                } else if exists|k: int| 0 <= k < i && #[trigger] entries@[k].0 == c {
                    let k = choose|k: int| 0 <= k < i && #[trigger] entries@[k].0 == c;
                    assert(other@.contains_key(entries@[k].0));
                }
            }
            assert forall|c: u16| #[trigger] self@.contains_key(c) implies self@[c] == merge_counts(start, other@)[c] by {
                assert(count_in(self@, c) == self@[c] as nat);
                if other@.contains_key(c) {
                    let k = choose|k: int| 0 <= k < entries@.len() && #[trigger] entries@[k].0 == c;
                    assert(exists|k: int| 0 <= k < i && #[trigger] entries@[k].0 == c);
                } else if exists|k: int| 0 <= k < i && #[trigger] entries@[k].0 == c {
                    let k = choose|k: int| 0 <= k < i && #[trigger] entries@[k].0 == c;
                    assert(other@.contains_key(entries@[k].0));
                }
            }
        }
    }
}

} // verus!
