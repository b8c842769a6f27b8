//! Text as sequences of characters: whitespace, trimming, splitting and
//! searching, stated the way `str`'s methods behave.
use vstd::prelude::*;

verus! {

/// `char::is_whitespace`: the characters with the Unicode `White_Space`
/// property.
pub open spec fn is_whitespace(c: char) -> bool {
    let v = c as u32;
    ||| 0x09 <= v && v <= 0x0d
    ||| v == 0x20
    ||| v == 0x85
    ||| v == 0xa0
    ||| v == 0x1680
    ||| 0x2000 <= v && v <= 0x200a
    ||| v == 0x2028
    ||| v == 0x2029
    ||| v == 0x202f
    ||| v == 0x205f
    ||| v == 0x3000
}

/// `s` with its leading whitespace removed.
pub open spec fn trim_start(s: Seq<char>) -> Seq<char>
    decreases s.len(),
{
    if s.len() > 0 && is_whitespace(s[0]) {
        trim_start(s.drop_first())
    } else {
        s
    }
}

/// `s` with its trailing whitespace removed.
pub open spec fn trim_end(s: Seq<char>) -> Seq<char>
    decreases s.len(),
{
    if s.len() > 0 && is_whitespace(s.last()) {
        trim_end(s.drop_last())
    } else {
        s
    }
}

/// `str::trim`: `s` without leading and trailing whitespace.
pub open spec fn trim(s: Seq<char>) -> Seq<char> {
    trim_end(trim_start(s))
}

/// Every character of `s` is whitespace.
pub open spec fn all_whitespace(s: Seq<char>) -> bool {
    forall|i: int| 0 <= i < s.len() ==> #[trigger] is_whitespace(s[i])
}

/// `s` neither begins nor ends with whitespace.
pub open spec fn no_outer_whitespace(s: Seq<char>) -> bool {
    s.len() == 0 || (!is_whitespace(s[0]) && !is_whitespace(s.last()))
}

/// Leading whitespace goes: `trim_start` is `s` from the position returned
/// on, everything before it is whitespace, and what is left does not begin
/// with whitespace.
proof fn lemma_trim_start_split(s: Seq<char>) -> (a: int)
    ensures
        0 <= a <= s.len(),
        trim_start(s) == s.skip(a),
        all_whitespace(s.take(a)),
        trim_start(s).len() == 0 || !is_whitespace(trim_start(s)[0]),
    decreases s.len(),
{
    if s.len() > 0 && is_whitespace(s[0]) {
        let a0 = lemma_trim_start_split(s.drop_first());
        assert(s.drop_first().skip(a0) =~= s.skip(a0 + 1));
        assert forall|i: int| 0 <= i < a0 + 1 implies #[trigger] is_whitespace(s.take(a0 + 1)[i]) by {
            if i > 0 {
                assert(s.take(a0 + 1)[i] == s.drop_first().take(a0)[i - 1]);
            }
        }
        a0 + 1
    } else {
        assert(s.skip(0) =~= s);
        0
    }
}

/// Trailing whitespace goes: `trim_end` is `s` up to the position returned,
/// everything after it is whitespace, and what is left does not end with
/// whitespace.
proof fn lemma_trim_end_split(s: Seq<char>) -> (b: int)
    ensures
        0 <= b <= s.len(),
        trim_end(s) == s.take(b),
        all_whitespace(s.skip(b)),
        trim_end(s).len() == 0 || !is_whitespace(trim_end(s).last()),
    decreases s.len(),
{
    if s.len() > 0 && is_whitespace(s.last()) {
        let b0 = lemma_trim_end_split(s.drop_last());
        assert(s.drop_last().take(b0) =~= s.take(b0));
        assert forall|i: int| 0 <= i < s.len() - b0 implies #[trigger] is_whitespace(s.skip(b0)[i]) by {
            if b0 + i < s.len() - 1 {
                assert(s.skip(b0)[i] == s.drop_last().skip(b0)[i]);
            } else {
                assert(s.skip(b0)[i] == s.last());
            }
        }
        b0
    } else {
        assert(s.take(s.len() as int) =~= s);
        s.len() as int
    }
}

/// Where `trim` cuts `s`: it keeps `s[a..b]`.
pub proof fn lemma_trim_split(s: Seq<char>) -> (r: (int, int))
    ensures
        0 <= r.0 <= r.1 <= s.len(),
        trim(s) == s.subrange(r.0, r.1),
        all_whitespace(s.take(r.0)),
        all_whitespace(s.skip(r.1)),
        no_outer_whitespace(trim(s)),
{
    let a = lemma_trim_start_split(s);
    let t1 = s.skip(a);
    let b = lemma_trim_end_split(t1);
    assert(t1.take(b) =~= s.subrange(a, a + b));
    assert(t1.skip(b) =~= s.skip(a + b));
    if trim(s).len() > 0 {
        assert(trim(s)[0] == t1[0]);
    }
    (a, a + b)
}

/// `str::trim` takes away exactly the whitespace at both ends: what it keeps
/// is a stretch of `s` that neither begins nor ends with whitespace, and all
/// that it drops before and after that stretch is whitespace.
pub proof fn law_trim_drops_outer_whitespace(s: Seq<char>)
    ensures
        no_outer_whitespace(trim(s)),
        exists|a: int, b: int|
            #![trigger s.subrange(a, b)]
            0 <= a <= b <= s.len() && trim(s) == s.subrange(a, b) && all_whitespace(s.take(a))
                && all_whitespace(s.skip(b)),
{
    let (a, b) = lemma_trim_split(s);
    assert(trim(s) == s.subrange(a, b));
}

/// Whitespace before a text that does not begin with whitespace is what
/// `trim_start` removes.
proof fn lemma_trim_start_of(u: Seq<char>, x: Seq<char>)
    requires
        all_whitespace(u),
        x.len() == 0 || !is_whitespace(x[0]),
    ensures
        trim_start(u + x) == x,
    decreases u.len(),
{
    if u.len() == 0 {
        assert(u + x =~= x);
    } else {
        assert((u + x)[0] == u[0]);
        assert((u + x).drop_first() =~= u.drop_first() + x);
        lemma_trim_start_of(u.drop_first(), x);
    }
}

/// Whitespace after a text that does not end with whitespace is what
/// `trim_end` removes.
proof fn lemma_trim_end_of(x: Seq<char>, v: Seq<char>)
    requires
        all_whitespace(v),
        x.len() == 0 || !is_whitespace(x.last()),
    ensures
        trim_end(x + v) == x,
    decreases v.len(),
{
    if v.len() == 0 {
        assert(x + v =~= x);
    } else {
        assert((x + v).last() == v.last());
        assert((x + v).drop_last() =~= x + v.drop_last());
        lemma_trim_end_of(x, v.drop_last());
    }
}

/// A text framed by whitespace trims to the text inside, when that text
/// neither begins nor ends with whitespace.
pub proof fn lemma_trim_of(u: Seq<char>, m: Seq<char>, v: Seq<char>)
    requires
        all_whitespace(u),
        all_whitespace(v),
        no_outer_whitespace(m),
    ensures
        trim(u + m + v) == m,
{
    assert(u + m + v =~= u + (m + v));
    if m.len() > 0 {
        assert((m + v)[0] == m[0]);
        lemma_trim_start_of(u, m + v);
        lemma_trim_end_of(m, v);
    } else {
        assert(u + (m + v) =~= (u + v) + Seq::<char>::empty());
        assert(all_whitespace(u + v)) by {
            assert forall|i: int| 0 <= i < (u + v).len() implies #[trigger] is_whitespace((u + v)[i]) by {
                if i < u.len() {
                    assert((u + v)[i] == u[i]);
                } else {
                    assert((u + v)[i] == v[i - u.len()]);
                }
            }
        }
        lemma_trim_start_of(u + v, Seq::<char>::empty());
        assert(m =~= Seq::<char>::empty());
    }
}

/// The position of the first `c` in `s`, or -1 when `s` has none.
pub open spec fn first_index_of(s: Seq<char>, c: char) -> int
    decreases s.len(),
{
    if s.len() == 0 {
        -1
    } else if s[0] == c {
        0
    } else {
        let r = first_index_of(s.drop_first(), c);
        if r < 0 {
            -1
        } else {
            r + 1
        }
    }
}

/// How many times `c` occurs in `s`.
pub open spec fn count_char(s: Seq<char>, c: char) -> nat
    decreases s.len(),
{
    if s.len() == 0 {
        0
    } else {
        count_char(s.drop_last(), c) + if s.last() == c {
            1nat
        } else {
            0nat
        }
    }
}

/// `str::split` on the character `sep`: the pieces between the separators,
/// empty pieces included; the empty text gives one empty piece.
pub open spec fn split_on(s: Seq<char>, sep: char) -> Seq<Seq<char>>
    decreases s.len(),
{
    if s.len() == 0 {
        seq![Seq::<char>::empty()]
    } else {
        let pieces = split_on(s.drop_last(), sep);
        if s.last() == sep {
            pieces.push(Seq::<char>::empty())
        } else {
            pieces.update(pieces.len() - 1, pieces.last().push(s.last()))
        }
    }
}

/// The characters of `s`, one by one.
pub fn str_chars(s: &str) -> (v: Vec<char>)
    ensures
        v@ == s@,
{
    broadcast use vstd::string::group_string_axioms;

    let mut v: Vec<char> = Vec::new();
    for c in it: s.chars()
        invariant
            it.seq() == s@,
            v@ == s@.take(it.index() as int),
    {
        v.push(c);
        assert(v@ =~= s@.take(it.index() + 1));
    }
    assert(s@.take(s@.len() as int) =~= s@);
    v
}

/// Is `c` a whitespace character (`char::is_whitespace`)?
pub fn char_is_whitespace(c: char) -> (r: bool)
    ensures
        r == is_whitespace(c),
{
    let v = c as u32;
    (0x09 <= v && v <= 0x0d) || v == 0x20 || v == 0x85 || v == 0xa0 || v == 0x1680 || (0x2000 <= v
        && v <= 0x200a) || v == 0x2028 || v == 0x2029 || v == 0x202f || v == 0x205f || v == 0x3000
}

/// The bounds of `s[start..end]` trimmed: `s[a..b]` is `trim(s[start..end])`.
pub fn trim_bounds(s: &Vec<char>, start: usize, end: usize) -> (r: (usize, usize))
    requires
        start <= end <= s@.len(),
    ensures
        start <= r.0 <= r.1 <= end,
        s@.subrange(r.0 as int, r.1 as int) == trim(s@.subrange(start as int, end as int)),
{
    let mut a = start;
    while a < end && char_is_whitespace(s[a])
        invariant
            start <= a <= end <= s@.len(),
            trim_start(s@.subrange(start as int, end as int)) == trim_start(
                s@.subrange(a as int, end as int),
            ),
        decreases end - a,
    {
        assert(s@.subrange(a as int, end as int).drop_first() =~= s@.subrange(a + 1, end as int));
        a = a + 1;
    }
    assert(trim_start(s@.subrange(a as int, end as int)) == s@.subrange(a as int, end as int));
    let mut b = end;
    while b > a && char_is_whitespace(s[b - 1])
        invariant
            start <= a <= b <= end <= s@.len(),
            trim_end(s@.subrange(a as int, end as int)) == trim_end(s@.subrange(a as int, b as int)),
        decreases b - a,
    {
        assert(s@.subrange(a as int, b as int).drop_last() =~= s@.subrange(a as int, b - 1));
        b = b - 1;
    }
    assert(trim_end(s@.subrange(a as int, b as int)) == s@.subrange(a as int, b as int));
    (a, b)
}

/// What `first_index_of` gives: the first occurrence, or -1 exactly when
/// there is none.
pub proof fn lemma_first_index_of(s: Seq<char>, c: char)
    ensures
        -1 <= first_index_of(s, c) < s.len(),
        first_index_of(s, c) >= 0 ==> s[first_index_of(s, c)] == c,
        forall|j: int| 0 <= j < s.len() && (first_index_of(s, c) < 0 || j < first_index_of(s, c))
            ==> s[j] != c,
    decreases s.len(),
{
    if s.len() > 0 && s[0] != c {
        lemma_first_index_of(s.drop_first(), c);
        assert forall|j: int|
            0 <= j < s.len() && (first_index_of(s, c) < 0 || j < first_index_of(s, c)) implies s[j]
            != c by {
            if j > 0 {
                assert(s[j] == s.drop_first()[j - 1]);
            }
        }
    }
}

/// `first_index_of` is the position `k` when `s[k] == c` and no earlier
/// character is `c`.
pub proof fn lemma_first_index_is(s: Seq<char>, c: char, k: int)
    requires
        0 <= k < s.len(),
        s[k] == c,
        forall|j: int| 0 <= j < k ==> s[j] != c,
    ensures
        first_index_of(s, c) == k,
{
    lemma_first_index_of(s, c);
}

/// `first_index_of` is -1 when no character is `c`.
pub proof fn lemma_first_index_none(s: Seq<char>, c: char)
    requires
        forall|j: int| 0 <= j < s.len() ==> s[j] != c,
    ensures
        first_index_of(s, c) == -1,
{
    lemma_first_index_of(s, c);
}

/// Counting over a concatenation adds the counts.
pub proof fn lemma_count_concat(a: Seq<char>, b: Seq<char>, c: char)
    ensures
        count_char(a + b, c) == count_char(a, c) + count_char(b, c),
    decreases b.len(),
{
    if b.len() == 0 {
        assert(a + b =~= a);
    } else {
        lemma_count_concat(a, b.drop_last(), c);
        assert((a + b).drop_last() =~= a + b.drop_last());
        assert((a + b).last() == b.last());
    }
}

/// A text without `c` counts no `c`.
pub proof fn lemma_count_none(s: Seq<char>, c: char)
    requires
        forall|j: int| 0 <= j < s.len() ==> s[j] != c,
    ensures
        count_char(s, c) == 0,
    decreases s.len(),
{
    if s.len() > 0 {
        lemma_count_none(s.drop_last(), c);
    }
}

} // verus!
