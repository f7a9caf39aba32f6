//! Character-level string utilities with exact specifications.
//!
//! Strings are reasoned about through their view, the sequence of their
//! characters. The executable helpers here work on `Vec<char>` and convert
//! at the edges.

use vstd::prelude::*;

verus! {

/// The views of a sequence of character vectors.
pub open spec fn vviews(v: Seq<Vec<char>>) -> Seq<Seq<char>> {
    v.map_values(|x: Vec<char>| x@)
}

/// The views of a sequence of strings.
pub open spec fn sviews(v: Seq<String>) -> Seq<Seq<char>> {
    v.map_values(|x: String| x@)
}

/// Appends one character to a string.
#[verifier::external_body]
pub(crate) fn push_char(s: &mut String, c: char)
    ensures
        final(s)@ == old(s)@.push(c),
{
    s.push(c);
}

/// The characters of a string slice, as a vector.
pub fn chars_of(s: &str) -> (v: Vec<char>)
    ensures
        v@ == s@,
{
    let mut v: Vec<char> = Vec::new();
    for c in it: s.chars()
        invariant
            v@ == it.seq().take(it.index() as int),
    {
        v.push(c);
    }
    v
}

/// Appends a sequence of characters to a string.
pub fn push_chars(s: &mut String, v: &Vec<char>)
    ensures
        final(s)@ == old(s)@ + v@,
{
    let ghost start = s@;
    let mut i: usize = 0;
    while i < v.len()
        invariant
            i <= v.len(),
            s@ == start + v@.take(i as int),
        decreases v.len() - i,
    {
        push_char(s, v[i]);
        assert(v@.take(i as int + 1) =~= v@.take(i as int).push(v@[i as int]));
        i = i + 1;
    }
    assert(v@.take(v.len() as int) =~= v@);
}

/// A string holding exactly the given characters.
pub fn string_from_chars(v: &Vec<char>) -> (s: String)
    ensures
        s@ == v@,
{
    let mut s = String::new();
    push_chars(&mut s, v);
    assert(Seq::<char>::empty() + v@ =~= v@);
    s
}

/// Appends a string slice to a string.
pub fn push_str(s: &mut String, t: &str)
    ensures
        final(s)@ == old(s)@ + t@,
{
    let v = chars_of(t);
    push_chars(s, &v);
}

/// A copy of a string slice.
pub fn copy_str(t: &str) -> (s: String)
    ensures
        s@ == t@,
{
    let v = chars_of(t);
    string_from_chars(&v)
}

// ---------------------------------------------------------------------------
// Decimal numbers
/// The decimal digit character for `d < 10`.
pub open spec fn digit_char(d: int) -> char {
    (48 + d) as char
}

/// Decimal representation of a natural number, most significant digit first.
pub open spec fn dec_digits(n: nat) -> Seq<char>
    decreases n,
{
    if n < 10 {
        seq![digit_char(n as int)]
    } else {
        dec_digits(n / 10).push(digit_char((n % 10) as int))
    }
}

/// Decimal representation of an integer, with a leading `-` when negative.
pub open spec fn dec_int(n: int) -> Seq<char> {
    if n < 0 {
        seq!['-'] + dec_digits((-n) as nat)
    } else {
        dec_digits(n as nat)
    }
}

/// Decimal representations consist of digits.
pub proof fn lemma_dec_digits_digits(n: nat)
    ensures
        all_digits(dec_digits(n)),
        dec_digits(n).len() > 0,
    decreases n,
{
    if n >= 10 {
        lemma_dec_digits_digits(n / 10);
        let s = dec_digits(n);
        assert forall|i: int| 0 <= i < s.len() implies is_digit(#[trigger] s[i]) by {
            if i < s.len() - 1 {
                assert(s[i] == dec_digits(n / 10)[i]);
            }
        }
    }
}

/// Signed decimal representations consist of digits and possibly a leading `-`.
pub proof fn lemma_dec_int_chars(n: int)
    ensures
        forall|i: int| 0 <= i < dec_int(n).len() ==> is_digit(#[trigger] dec_int(n)[i]) || dec_int(n)[i] == '-',
{
    if n < 0 {
        lemma_dec_digits_digits((-n) as nat);
        let d = dec_digits((-n) as nat);
        assert forall|i: int| 0 <= i < dec_int(n).len() implies is_digit(#[trigger] dec_int(n)[i]) || dec_int(n)[i] == '-' by {
            if i > 0 {
                assert(dec_int(n)[i] == d[i - 1]);
            }
        }
    } else {
        lemma_dec_digits_digits(n as nat);
    }
}

pub(crate) fn digit(d: u64) -> (c: char)
    requires
        d < 10,
    ensures
        c == digit_char(d as int),
{
    let b: u8 = d as u8;
    (48u8 + b) as char
}

/// Appends the decimal representation of `n`.
pub fn push_decimal(s: &mut String, n: u64)
    ensures
        final(s)@ == old(s)@ + dec_digits(n as nat),
    decreases n,
{
    if n >= 10 {
        push_decimal(s, n / 10);
        assert(old(s)@ + dec_digits(n as nat) =~= old(s)@ + dec_digits((n / 10) as nat) + seq![digit_char((n % 10) as int)]);
    } else {
        assert(old(s)@ + dec_digits(n as nat) =~= old(s)@ + seq![digit_char(n as int)]);
    }
    push_char(s, digit(n % 10));
}

/// Appends the decimal representation of a signed 64-bit value.
pub fn push_decimal_i64(s: &mut String, n: i64)
    ensures
        final(s)@ == old(s)@ + dec_int(n as int),
{
    if n < 0 {
        push_char(s, '-');
        let m: u64 = if n == i64::MIN {
            9223372036854775808u64
        } else {
            (-n) as u64
        };
        push_decimal(s, m);
        assert(old(s)@ + dec_int(n as int) =~= old(s)@.push('-') + dec_digits(m as nat));
    } else {
        push_decimal(s, n as u64);
    }
}

/// The decimal representation of `n` as a string.
pub fn decimal_string(n: u64) -> (s: String)
    ensures
        s@ == dec_digits(n as nat),
{
    let mut s = String::new();
    push_decimal(&mut s, n);
    assert(Seq::<char>::empty() + dec_digits(n as nat) =~= dec_digits(n as nat));
    s
}

/// Numeric value of an all-digit character sequence.
pub open spec fn dec_value(d: Seq<char>) -> nat
    decreases d.len(),
{
    if d.len() == 0 {
        0
    } else {
        dec_value(d.drop_last()) * 10 + ((d.last() as int - 48) as nat)
    }
}

pub open spec fn is_digit(c: char) -> bool {
    '0' <= c && c <= '9'
}

pub open spec fn all_digits(d: Seq<char>) -> bool {
    forall|i: int| 0 <= i < d.len() ==> is_digit(#[trigger] d[i])
}

/// The unsigned integer denoted by `s` as `str::parse` reads it for an
/// unsigned type whose largest value is `max`: an optional `+` followed by at
/// least one decimal digit, in range.
pub open spec fn parse_unsigned(s: Seq<char>, max: nat) -> Option<nat> {
    let d = if s.len() > 0 && s[0] == '+' { s.drop_first() } else { s };
    if d.len() > 0 && all_digits(d) && dec_value(d) <= max {
        Some(dec_value(d))
    } else {
        None
    }
}

/// The signed integer denoted by `s` as `str::parse` reads it for a signed type
/// with range `[min, max]`: an optional sign followed by at least one digit.
pub open spec fn parse_signed(s: Seq<char>, min: int, max: int) -> Option<int> {
    if s.len() > 0 && s[0] == '-' {
        let d = s.drop_first();
        if d.len() > 0 && all_digits(d) && -(dec_value(d) as int) >= min {
            Some(-(dec_value(d) as int))
        } else {
            None
        }
    } else {
        let d = if s.len() > 0 && s[0] == '+' { s.drop_first() } else { s };
        if d.len() > 0 && all_digits(d) && dec_value(d) <= max {
            Some(dec_value(d) as int)
        } else {
            None
        }
    }
}

proof fn lemma_dec_value_monotone(d: Seq<char>, i: int)
    requires
        0 <= i <= d.len(),
        all_digits(d),
    ensures
        dec_value(d.take(i)) <= dec_value(d),
    decreases d.len() - i,
{
    if i < d.len() {
        lemma_dec_value_monotone(d, i + 1);
        assert(d.take(i + 1).drop_last() =~= d.take(i));
        assert(is_digit(d[i]));
    } else {
        assert(d.take(i) =~= d);
    }
}

/// Reads the digits of `d` starting at `from`, failing when the value exceeds
/// `max` or a non-digit appears.
fn digits_value(d: &Vec<char>, from: usize, max: u64) -> (r: Option<u64>)
    requires
        from <= d.len(),
    ensures
        ({
            let t = d@.skip(from as int);
            match r {
                Some(v) => t.len() > 0 && all_digits(t) && v == dec_value(t) && dec_value(t) <= max,
                None => !(t.len() > 0 && all_digits(t) && dec_value(t) <= max),
            }
        }),
{
    let ghost t = d@.skip(from as int);
    if from == d.len() {
        return None;
    }
    let mut acc: u64 = 0;
    let mut i: usize = from;
    while i < d.len()
        invariant
            from <= i <= d.len(),
            t == d@.skip(from as int),
            all_digits(t.take(i - from)),
            acc == dec_value(t.take(i - from)),
            acc <= max,
        decreases d.len() - i,
    {
        let c = d[i];
        if !('0' <= c && c <= '9') {
            assert(t[i - from] == c);
            return None;
        }
        let v: u64 = (c as u32 - 48) as u64;
        assert(t.take(i - from + 1).drop_last() =~= t.take(i - from));
        assert(t.take(i - from + 1).last() == c);
        if v > max || acc > (max - v) / 10 {
            proof {
                assert(dec_value(t.take(i - from + 1)) == acc * 10 + v);
                assert(acc * 10 + v > max) by (nonlinear_arith)
                    requires v > max || acc > (max - v) / 10, v <= max ==> max - v >= 0, acc >= 0;
                if all_digits(t) {
                    lemma_dec_value_monotone(t, i - from + 1);
                }
            }
            return None;
        }
        proof {
            assert(acc * 10 + v <= max) by (nonlinear_arith)
                requires acc <= (max - v) / 10, v <= max;
        }
        assert(all_digits(t.take(i - from + 1)));
        acc = acc * 10 + v;
        i = i + 1;
    }
    assert(t.take(i - from) =~= t);
    Some(acc)
}

/// Parses an unsigned integer in `[0, max]` as `str::parse` does.
pub fn parse_unsigned_chars(s: &Vec<char>, max: u64) -> (r: Option<u64>)
    ensures
        match r {
            Some(v) => parse_unsigned(s@, max as nat) == Some(v as nat),
            None => parse_unsigned(s@, max as nat) is None,
        },
{
    if s.len() > 0 && s[0] == '+' {
        assert(s@.skip(1) =~= s@.drop_first());
        digits_value(s, 1, max)
    } else {
        assert(s@.skip(0) =~= s@);
        digits_value(s, 0, max)
    }
}

/// Parses a `u64` as `str::parse::<u64>` does.
pub fn parse_u64(s: &str) -> (r: Option<u64>)
    ensures
        match r {
            Some(v) => parse_unsigned(s@, u64::MAX as nat) == Some(v as nat),
            None => parse_unsigned(s@, u64::MAX as nat) is None,
        },
{
    let v = chars_of(s);
    parse_unsigned_chars(&v, u64::MAX)
}

/// Parses a `usize` as `str::parse::<usize>` does.
pub fn parse_usize(s: &str) -> (r: Option<usize>)
    ensures
        match r {
            Some(v) => parse_unsigned(s@, usize::MAX as nat) == Some(v as nat),
            None => parse_unsigned(s@, usize::MAX as nat) is None,
        },
{
    let v = chars_of(s);
    match parse_unsigned_chars(&v, usize::MAX as u64) {
        Some(x) => Some(x as usize),
        None => None,
    }
}

/// Parses an `i32` as `str::parse::<i32>` does.
pub fn parse_i32(s: &str) -> (r: Option<i32>)
    ensures
        match r {
            Some(v) => parse_signed(s@, i32::MIN as int, i32::MAX as int) == Some(v as int),
            None => parse_signed(s@, i32::MIN as int, i32::MAX as int) is None,
        },
{
    let v = chars_of(s);
    if v.len() > 0 && v[0] == '-' {
        assert(v@.skip(1) =~= v@.drop_first());
        match digits_value(&v, 1, 2147483648u64) {
            Some(x) => Some((0i64 - x as i64) as i32),
            None => None,
        }
    } else if v.len() > 0 && v[0] == '+' {
        assert(v@.skip(1) =~= v@.drop_first());
        match digits_value(&v, 1, 2147483647u64) {
            Some(x) => Some(x as i32),
            None => None,
        }
    } else {
        assert(v@.skip(0) =~= v@);
        match digits_value(&v, 0, 2147483647u64) {
            Some(x) => Some(x as i32),
            None => None,
        }
    }
}

/// The value of the decimal digits of `n` is `n`.
pub proof fn lemma_dec_value_of_digits(n: nat)
    ensures
        dec_value(dec_digits(n)) == n,
    decreases n,
{
    let s = dec_digits(n);
    assert(digit_char((n % 10) as int) as int == 48 + n % 10);
    if n >= 10 {
        lemma_dec_value_of_digits(n / 10);
        assert(s.drop_last() =~= dec_digits(n / 10));
        assert(s.last() == digit_char((n % 10) as int));
        assert(dec_value(s) == (n / 10) * 10 + n % 10);
        vstd::arithmetic::div_mod::lemma_fundamental_div_mod(n as int, 10);
    } else {
        assert(s.drop_last() =~= Seq::<char>::empty());
        assert(s.last() == digit_char(n as int));
        assert(dec_value(s.drop_last()) == 0);
        assert(digit_char(n as int) as int == 48 + n);
    }
}

/// Reading back a number written in decimal gives the number: parsing
/// undoes `push_decimal` for every value in range.
pub proof fn lemma_parse_written_decimal(n: nat, max: nat)
    requires
        n <= max,
    ensures
        parse_unsigned(dec_digits(n), max) == Some(n),
        n <= i32::MAX ==> parse_signed(dec_digits(n), i32::MIN as int, i32::MAX as int) == Some(n as int),
{
    lemma_dec_digits_digits(n);
    lemma_dec_value_of_digits(n);
    assert(is_digit(dec_digits(n)[0]));
}

} // verus!
