//! Searching, splitting, joining, trimming and ordering of character sequences.

use vstd::prelude::*;
use crate::text::{chars_of, vviews};

verus! {

/// `sep` occurs in `s` at position `i`.
pub open spec fn match_at(s: Seq<char>, i: int, sep: Seq<char>) -> bool {
    0 <= i && i + sep.len() <= s.len() && s.subrange(i, i + sep.len()) == sep
}

/// The first position at or after `from` where `sep` occurs in `s`.
pub open spec fn first_match(s: Seq<char>, sep: Seq<char>, from: int) -> Option<int>
    decreases s.len() + 1 - from,
{
    if from < 0 || from + sep.len() > s.len() {
        None
    } else if match_at(s, from, sep) {
        Some(from)
    } else {
        first_match(s, sep, from + 1)
    }
}

/// A match found by `first_match` is a match at or after `from`.
pub proof fn lemma_first_match_props(s: Seq<char>, sep: Seq<char>, from: int)
    ensures
        first_match(s, sep, from) matches Some(i) ==> from <= i && match_at(s, i, sep),
    decreases s.len() + 1 - from,
{
    if !(from < 0 || from + sep.len() > s.len()) && !match_at(s, from, sep) {
        lemma_first_match_props(s, sep, from + 1);
    }
}

/// The pieces of `s` between the non-overlapping occurrences of the non-empty
/// separator `sep`, found left to right, as `str::split` yields them.
pub open spec fn split_on(s: Seq<char>, sep: Seq<char>) -> Seq<Seq<char>>
    decreases s.len(),
{
    if sep.len() == 0 {
        seq![s]
    } else {
        match first_match(s, sep, 0) {
            None => seq![s],
            Some(i) => {
                proof {
                    lemma_first_match_props(s, sep, 0);
                }
                seq![s.take(i)] + split_on(s.skip(i + sep.len()), sep)
            },
        }
    }
}

/// The pieces joined with `sep` between consecutive pieces.
pub open spec fn join(parts: Seq<Seq<char>>, sep: Seq<char>) -> Seq<char>
    decreases parts.len(),
{
    if parts.len() == 0 {
        Seq::empty()
    } else if parts.len() == 1 {
        parts[0]
    } else {
        join(parts.drop_last(), sep) + sep + parts.last()
    }
}

/// `p` is a prefix of `s`.
pub open spec fn has_prefix(s: Seq<char>, p: Seq<char>) -> bool {
    p.len() <= s.len() && s.take(p.len() as int) == p
}

/// `p` is a suffix of `s`.
pub open spec fn has_suffix(s: Seq<char>, p: Seq<char>) -> bool {
    p.len() <= s.len() && s.skip(s.len() - p.len()) == p
}

/// `t` occurs somewhere in `s`.
pub open spec fn contains_seq(s: Seq<char>, t: Seq<char>) -> bool {
    exists|i: int| match_at(s, i, t)
}

/// Strict lexicographic order by code point, which for UTF-8 text is also the
/// byte order in which `str` compares.
pub open spec fn lex_lt(a: Seq<char>, b: Seq<char>) -> bool
    decreases a.len(),
{
    if a.len() == 0 {
        b.len() > 0
    } else if b.len() == 0 {
        false
    } else if a[0] != b[0] {
        a[0] < b[0]
    } else {
        lex_lt(a.drop_first(), b.drop_first())
    }
}

pub open spec fn lex_le(a: Seq<char>, b: Seq<char>) -> bool {
    a == b || lex_lt(a, b)
}

// ---------------------------------------------------------------------------
// Order lemmas

pub proof fn lemma_lex_irreflexive(a: Seq<char>)
    ensures
        !lex_lt(a, a),
    decreases a.len(),
{
    if a.len() > 0 {
        lemma_lex_irreflexive(a.drop_first());
    }
}

pub proof fn lemma_lex_transitive(a: Seq<char>, b: Seq<char>, c: Seq<char>)
    requires
        lex_lt(a, b),
        lex_lt(b, c),
    ensures
        lex_lt(a, c),
    decreases a.len(),
{
    if a.len() > 0 && b.len() > 0 && c.len() > 0 {
        if a[0] == b[0] && b[0] == c[0] {
            lemma_lex_transitive(a.drop_first(), b.drop_first(), c.drop_first());
        }
    }
}

pub proof fn lemma_lex_total(a: Seq<char>, b: Seq<char>)
    ensures
        a == b || lex_lt(a, b) || lex_lt(b, a),
    decreases a.len(),
{
    if a.len() > 0 && b.len() > 0 {
        if a[0] == b[0] {
            lemma_lex_total(a.drop_first(), b.drop_first());
            if a.drop_first() == b.drop_first() {
                assert(a =~= seq![a[0]] + a.drop_first());
                assert(b =~= seq![b[0]] + b.drop_first());
            }
        }
    } else if a.len() == 0 && b.len() == 0 {
        assert(a =~= b);
    }
}

pub proof fn lemma_lex_asymmetric(a: Seq<char>, b: Seq<char>)
    requires
        lex_lt(a, b),
    ensures
        !lex_lt(b, a),
{
    if lex_lt(b, a) {
        lemma_lex_transitive(a, b, a);
        lemma_lex_irreflexive(a);
    }
}

// ---------------------------------------------------------------------------
// Executable helpers

/// Whether `a` is strictly before `b`.
pub fn chars_lt(a: &Vec<char>, b: &Vec<char>) -> (r: bool)
    ensures
        r == lex_lt(a@, b@),
{
    let mut i: usize = 0;
    assert(a@.skip(0) =~= a@);
    assert(b@.skip(0) =~= b@);
    while i < a.len() && i < b.len()
        invariant
            i <= a.len(),
            i <= b.len(),
            lex_lt(a@, b@) == lex_lt(a@.skip(i as int), b@.skip(i as int)),
        decreases a.len() - i,
    {
        if a[i] != b[i] {
            return a[i] < b[i];
        }
        assert(a@.skip(i as int).drop_first() =~= a@.skip(i as int + 1));
        assert(b@.skip(i as int).drop_first() =~= b@.skip(i as int + 1));
        i = i + 1;
    }
    i < b.len()
}

/// Whether two character vectors are equal.
pub fn chars_eq(a: &Vec<char>, b: &Vec<char>) -> (r: bool)
    ensures
        r == (a@ == b@),
{
    if a.len() != b.len() {
        return false;
    }
    let mut i: usize = 0;
    while i < a.len()
        invariant
            i <= a.len(),
            a.len() == b.len(),
            a@.take(i as int) == b@.take(i as int),
        decreases a.len() - i,
    {
        if a[i] != b[i] {
            return false;
        }
        assert(a@.take(i as int + 1) =~= a@.take(i as int).push(a@[i as int]));
        assert(b@.take(i as int + 1) =~= b@.take(i as int).push(b@[i as int]));
        i = i + 1;
    }
    assert(a@.take(i as int) =~= a@);
    assert(b@.take(i as int) =~= b@);
    true
}

/// Whether two string slices hold the same characters.
pub fn str_eq(a: &str, b: &str) -> (r: bool)
    ensures
        r == (a@ == b@),
{
    let x = chars_of(a);
    let y = chars_of(b);
    chars_eq(&x, &y)
}

/// Whether `sep` occurs in `s` at position `i`.
pub fn matches_at(s: &Vec<char>, i: usize, sep: &Vec<char>) -> (r: bool)
    ensures
        r == match_at(s@, i as int, sep@),
{
    if i > s.len() || sep.len() > s.len() - i {
        return false;
    }
    let mut j: usize = 0;
    while j < sep.len()
        invariant
            j <= sep.len(),
            i + sep.len() <= s.len(),
            forall|k: int| 0 <= k < j ==> s@[i + k] == sep@[k],
        decreases sep.len() - j,
    {
        if s[i + j] != sep[j] {
            assert(s@.subrange(i as int, i + sep.len())[j as int] != sep@[j as int]);
            return false;
        }
        j = j + 1;
    }
    assert(s@.subrange(i as int, i + sep.len()) =~= sep@);
    true
}

/// Joining `n` pieces is joining the first `n - 1` and then the last.
pub proof fn lemma_flatten_new_step(n: nat, g: spec_fn(int) -> Seq<char>)
    requires
        n > 0,
    ensures
        Seq::new(n, g).flatten() == Seq::new((n - 1) as nat, g).flatten() + g(n - 1),
{
    let s = Seq::new(n, g);
    s.lemma_flatten_and_flatten_alt_are_equivalent();
    s.drop_last().lemma_flatten_and_flatten_alt_are_equivalent();
    assert(s.drop_last() =~= Seq::new((n - 1) as nat, g));
}

/// Joining no pieces gives nothing.
pub proof fn lemma_flatten_new_empty(g: spec_fn(int) -> Seq<char>)
    ensures
        Seq::new(0, g).flatten() == Seq::<char>::empty(),
{
}

/// No match lies between `from` and the first match found from there.
pub proof fn lemma_first_match_earliest(s: Seq<char>, sep: Seq<char>, from: int, i: int)
    requires
        first_match(s, sep, from) == Some(i),
    ensures
        forall|k: int| from <= k < i ==> !match_at(s, k, sep),
    decreases s.len() + 1 - from,
{
    if !(from < 0 || from + sep.len() > s.len()) && !match_at(s, from, sep) {
        lemma_first_match_earliest(s, sep, from + 1, i);
    }
}

/// Two sequences neither of which begins the other are ordered as any two
/// sequences that begin with them.
pub proof fn lemma_lex_through_prefixes(a: Seq<char>, b: Seq<char>, x: Seq<char>, y: Seq<char>)
    requires
        has_prefix(x, a),
        has_prefix(y, b),
        !has_prefix(b, a),
        !has_prefix(a, b),
        lex_lt(x, y),
    ensures
        lex_lt(a, b),
    decreases a.len(),
{
    if a.len() == 0 {
        assert(b.take(0) =~= a);
    } else if b.len() == 0 {
        assert(a.take(0) =~= b);
    } else {
        assert(x[0] == a[0]) by {
            assert(x.take(a.len() as int)[0] == x[0]);
        }
        assert(y[0] == b[0]) by {
            assert(y.take(b.len() as int)[0] == y[0]);
        }
        if a[0] == b[0] {
            let a1 = a.drop_first();
            let b1 = b.drop_first();
            let x1 = x.drop_first();
            let y1 = y.drop_first();
            assert(x1.take(a1.len() as int) =~= a1) by {
                assert(x.take(a.len() as int) == a);
            }
            assert(y1.take(b1.len() as int) =~= b1) by {
                assert(y.take(b.len() as int) == b);
            }
            if has_prefix(b1, a1) {
                assert(b.take(a.len() as int) =~= a) by {
                    assert(b1.take(a1.len() as int) == a1);
                    assert forall|k: int| 0 < k < a.len() implies b[k] == a[k] by {
                        assert(b1.take(a1.len() as int)[k - 1] == a1[k - 1]);
                    }
                }
            }
            if has_prefix(a1, b1) {
                assert(a.take(b.len() as int) =~= b) by {
                    assert(a1.take(b1.len() as int) == b1);
                    assert forall|k: int| 0 < k < b.len() implies a[k] == b[k] by {
                        assert(a1.take(b1.len() as int)[k - 1] == b1[k - 1]);
                    }
                }
            }
            lemma_lex_through_prefixes(a1, b1, x1, y1);
        }
    }
}

pub proof fn lemma_first_match_skip(s: Seq<char>, sep: Seq<char>, from: int, to: int)
    requires
        0 <= from <= to,
        forall|k: int| from <= k < to ==> !match_at(s, k, sep),
    ensures
        to + sep.len() <= s.len() ==> first_match(s, sep, from) == first_match(s, sep, to),
        to + sep.len() > s.len() ==> first_match(s, sep, from) is None,
    decreases to - from,
{
    if from < to {
        lemma_first_match_skip(s, sep, from + 1, to);
    }
}

/// The first position at or after `from` where `sep` occurs in `s`.
pub fn find_from(s: &Vec<char>, sep: &Vec<char>, from: usize) -> (r: Option<usize>)
    ensures
        match r {
            Some(i) => first_match(s@, sep@, from as int) == Some(i as int),
            None => first_match(s@, sep@, from as int) is None,
        },
        r matches Some(i) ==> from <= i && i + sep.len() <= s.len() && match_at(s@, i as int, sep@),
{
    if from > s.len() || sep.len() > s.len() - from {
        return None;
    }
    let mut i: usize = from;
    let last: usize = s.len() - sep.len();
    loop
        invariant
            from <= i <= last,
            last == s.len() - sep.len(),
            forall|k: int| from <= k < i ==> !match_at(s@, k, sep@),
        decreases last - i,
    {
        if matches_at(s, i, sep) {
            proof { lemma_first_match_skip(s@, sep@, from as int, i as int); }
            return Some(i);
        }
        if i == last {
            proof { lemma_first_match_skip(s@, sep@, from as int, i as int + 1); }
            return None;
        }
        i = i + 1;
    }
}

/// The characters of `s` in `[lo, hi)`.
pub fn slice_chars(s: &Vec<char>, lo: usize, hi: usize) -> (r: Vec<char>)
    requires
        lo <= hi <= s.len(),
    ensures
        r@ == s@.subrange(lo as int, hi as int),
{
    let mut r: Vec<char> = Vec::new();
    let mut i: usize = lo;
    while i < hi
        invariant
            lo <= i <= hi,
            hi <= s.len(),
            r@ == s@.subrange(lo as int, i as int),
        decreases hi - i,
    {
        r.push(s[i]);
        assert(s@.subrange(lo as int, i as int + 1) =~= s@.subrange(lo as int, i as int).push(s@[i as int]));
        i = i + 1;
    }
    r
}

proof fn lemma_first_match_shift(s: Seq<char>, sep: Seq<char>, start: int, from: int)
    requires
        0 <= start <= s.len(),
        0 <= from,
    ensures
        first_match(s.skip(start), sep, from) == (match first_match(s, sep, start + from) {
            Some(i) => Some(i - start),
            None => None::<int>,
        }),
    decreases s.len() + 1 - start - from,
{
    let t = s.skip(start);
    if from + sep.len() <= t.len() {
        assert(t.subrange(from, from + sep.len()) =~= s.subrange(start + from, start + from + sep.len()));
        if !match_at(t, from, sep) {
            lemma_first_match_shift(s, sep, start, from + 1);
        }
    }
}

/// Splits `s` at the non-overlapping occurrences of the non-empty `sep`.
pub fn split_chars(s: &Vec<char>, sep: &Vec<char>) -> (r: Vec<Vec<char>>)
    requires
        sep.len() > 0,
    ensures
        vviews(r@) == split_on(s@, sep@),
{
    let mut r: Vec<Vec<char>> = Vec::new();
    let mut start: usize = 0;
    assert(s@.skip(0) =~= s@);
    assert(vviews(r@) + split_on(s@, sep@) =~= split_on(s@, sep@));
    loop
        invariant
            start <= s.len(),
            sep.len() > 0,
            vviews(r@) + split_on(s@.skip(start as int), sep@) == split_on(s@, sep@),
        decreases s.len() - start,
    {
        let ghost rest = s@.skip(start as int);
        let ghost old_r = r@;
        proof { lemma_first_match_shift(s@, sep@, start as int, 0); }
        match find_from(s, sep, start) {
            None => {
                let piece = slice_chars(s, start, s.len());
                assert(piece@ =~= rest);
                assert(split_on(rest, sep@) == seq![rest]);
                r.push(piece);
                assert(vviews(r@) =~= vviews(old_r).push(rest));
                assert(vviews(r@) =~= vviews(old_r) + split_on(rest, sep@));
                return r;
            }
            Some(i) => {
                let piece = slice_chars(s, start, i);
                assert(piece@ =~= rest.take(i - start));
                assert(rest.skip(i - start + sep.len()) =~= s@.skip(i + sep.len()));
                assert(split_on(rest, sep@) == seq![rest.take(i - start)] + split_on(s@.skip(i + sep.len()), sep@));
                r.push(piece);
                assert(vviews(r@) =~= vviews(old_r).push(piece@));
                assert(vviews(r@) + split_on(s@.skip(i + sep.len()), sep@) =~= vviews(old_r) + split_on(rest, sep@));
                start = i + sep.len();
            }
        }
    }
}


/// Joins pieces with `sep` between consecutive pieces.
pub fn join_chars(parts: &Vec<Vec<char>>, sep: &Vec<char>) -> (r: Vec<char>)
    ensures
        r@ == join(vviews(parts@), sep@),
{
    let mut r: Vec<char> = Vec::new();
    let mut i: usize = 0;
    while i < parts.len()
        invariant
            i <= parts.len(),
            r@ == join(vviews(parts@).take(i as int), sep@),
        decreases parts.len() - i,
    {
        let ghost before = r@;
        assert(vviews(parts@).take(i as int + 1).drop_last() =~= vviews(parts@).take(i as int));
        if i > 0 {
            r.extend_from_slice(sep.as_slice());
        }
        r.extend_from_slice(parts[i].as_slice());
        if i == 0 {
            assert(r@ =~= vviews(parts@).take(1)[0]);
        } else {
            assert(r@ =~= before + sep@ + vviews(parts@).take(i as int + 1).last());
        }
        i = i + 1;
    }
    assert(vviews(parts@).take(parts.len() as int) =~= vviews(parts@));
    r
}

/// Whether `p` is a prefix of `s`.
pub fn starts_with_chars(s: &Vec<char>, p: &Vec<char>) -> (r: bool)
    ensures
        r == has_prefix(s@, p@),
{
    let r = matches_at(s, 0, p);
    assert(r ==> s@.take(p.len() as int) =~= s@.subrange(0, p.len() as int));
    assert(has_prefix(s@, p@) ==> s@.take(p.len() as int) =~= s@.subrange(0, p.len() as int));
    r
}

/// Whether `p` is a suffix of `s`.
pub fn ends_with_chars(s: &Vec<char>, p: &Vec<char>) -> (r: bool)
    ensures
        r == has_suffix(s@, p@),
{
    if p.len() > s.len() {
        return false;
    }
    let k = s.len() - p.len();
    let r = matches_at(s, k, p);
    assert(s@.skip(k as int) =~= s@.subrange(k as int, k + p.len()));
    r
}

/// Whether `t` occurs in `s`.
pub fn contains_chars(s: &Vec<char>, t: &Vec<char>) -> (r: bool)
    ensures
        r == contains_seq(s@, t@),
{
    proof { lemma_first_match_complete(s@, t@, 0); }
    match find_from(s, t, 0) {
        Some(_) => true,
        None => false,
    }
}

/// Every match at or after `from` is found by `first_match`.
pub proof fn lemma_first_match_complete(s: Seq<char>, sep: Seq<char>, from: int)
    requires
        0 <= from,
    ensures
        first_match(s, sep, from) is None ==> forall|i: int| from <= i ==> !match_at(s, i, sep),
        first_match(s, sep, from) matches Some(j) ==> forall|i: int| from <= i < j ==> !match_at(s, i, sep),
    decreases s.len() + 1 - from,
{
    if !(from + sep.len() > s.len()) && !match_at(s, from, sep) {
        lemma_first_match_complete(s, sep, from + 1);
    }
}

/// `char::is_whitespace`: the Unicode `White_Space` characters.
pub open spec fn is_ws(c: char) -> bool {
    ||| ('\t' <= c && c <= '\r')
    ||| c == ' '
    ||| c == '\u{85}'
    ||| c == '\u{a0}'
    ||| c == '\u{1680}'
    ||| ('\u{2000}' <= c && c <= '\u{200a}')
    ||| c == '\u{2028}'
    ||| c == '\u{2029}'
    ||| c == '\u{202f}'
    ||| c == '\u{205f}'
    ||| c == '\u{3000}'
}

fn is_ws_exec(c: char) -> (r: bool)
    ensures
        r == is_ws(c),
{
    ('\t' <= c && c <= '\r') || c == ' ' || c == '\u{85}' || c == '\u{a0}' || c == '\u{1680}'
        || ('\u{2000}' <= c && c <= '\u{200a}') || c == '\u{2028}' || c == '\u{2029}'
        || c == '\u{202f}' || c == '\u{205f}' || c == '\u{3000}'
}

/// `s` without its leading whitespace.
pub open spec fn trim_start(s: Seq<char>) -> Seq<char>
    decreases s.len(),
{
    if s.len() > 0 && is_ws(s[0]) {
        trim_start(s.drop_first())
    } else {
        s
    }
}

/// `s` without its trailing whitespace.
pub open spec fn trim_end(s: Seq<char>) -> Seq<char>
    decreases s.len(),
{
    if s.len() > 0 && is_ws(s.last()) {
        trim_end(s.drop_last())
    } else {
        s
    }
}

/// `s` without leading and trailing whitespace, as `str::trim` gives it.
pub open spec fn trim(s: Seq<char>) -> Seq<char> {
    trim_end(trim_start(s))
}

/// `str::trim` on characters.
pub fn trim_chars(s: &Vec<char>) -> (r: Vec<char>)
    ensures
        r@ == trim(s@),
{
    let mut lo: usize = 0;
    assert(s@.skip(0) =~= s@);
    while lo < s.len() && is_ws_exec(s[lo])
        invariant
            lo <= s.len(),
            trim_start(s@) == trim_start(s@.skip(lo as int)),
        decreases s.len() - lo,
    {
        assert(s@.skip(lo as int).drop_first() =~= s@.skip(lo as int + 1));
        lo = lo + 1;
    }
    assert(trim_start(s@.skip(lo as int)) == s@.skip(lo as int));
    let mut hi: usize = s.len();
    assert(s@.subrange(lo as int, hi as int) =~= s@.skip(lo as int));
    while hi > lo && is_ws_exec(s[hi - 1])
        invariant
            lo <= hi <= s.len(),
            trim(s@) == trim_end(s@.subrange(lo as int, hi as int)),
        decreases hi,
    {
        assert(s@.subrange(lo as int, hi as int).drop_last() =~= s@.subrange(lo as int, hi - 1));
        hi = hi - 1;
    }
    slice_chars(s, lo, hi)
}

/// ASCII lower-casing of one character.
pub open spec fn ascii_lower(c: char) -> char {
    if 'A' <= c && c <= 'Z' {
        ((c as u32) + 32) as char
    } else {
        c
    }
}

/// ASCII lower-casing of every character, as `str::to_ascii_lowercase` does.
pub open spec fn ascii_lowercase(s: Seq<char>) -> Seq<char> {
    s.map_values(|c: char| ascii_lower(c))
}

/// `str::to_ascii_lowercase` on characters.
pub fn ascii_lowercase_chars(s: &Vec<char>) -> (r: Vec<char>)
    ensures
        r@ == ascii_lowercase(s@),
{
    let mut r: Vec<char> = Vec::new();
    let mut i: usize = 0;
    while i < s.len()
        invariant
            i <= s.len(),
            r@ == ascii_lowercase(s@.take(i as int)),
        decreases s.len() - i,
    {
        let c = s[i];
        let d = if 'A' <= c && c <= 'Z' {
            ((c as u8) + 32) as char
        } else {
            c
        };
        r.push(d);
        assert(ascii_lowercase(s@.take(i as int + 1)) =~= ascii_lowercase(s@.take(i as int)).push(ascii_lower(c)));
        i = i + 1;
    }
    assert(s@.take(s.len() as int) =~= s@);
    r
}

} // verus!
