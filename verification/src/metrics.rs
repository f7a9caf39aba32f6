//! Request counters and the human-readable sizes and durations shown by the
//! admin pages.

use vstd::prelude::*;
use crate::text::{dec_digits, digit_char, push_decimal, push_str, push_char};

verus! {

/// Requests, bytes received and bytes sent for one bucket.
#[derive(Debug, Clone, Copy)]
pub struct BucketMetrics {
    pub requests: u64,
    pub bytes_in: u64,
    pub bytes_out: u64,
}

impl Default for BucketMetrics {
    fn default() -> (m: Self)
        ensures
            m.requests == 0,
            m.bytes_in == 0,
            m.bytes_out == 0,
    {
        BucketMetrics { requests: 0, bytes_in: 0, bytes_out: 0 }
    }
}

impl BucketMetrics {
    /// Counts one request of the bucket that received and sent the given
    /// numbers of bytes.
    pub fn record(&mut self, bytes_in: u64, bytes_out: u64)
        requires
            old(self).requests < u64::MAX,
            old(self).bytes_in + bytes_in <= u64::MAX,
            old(self).bytes_out + bytes_out <= u64::MAX,
        ensures
            final(self).requests == old(self).requests + 1,
            final(self).bytes_in == old(self).bytes_in + bytes_in,
            final(self).bytes_out == old(self).bytes_out + bytes_out,
    {
        self.requests = self.requests + 1;
        self.bytes_in = self.bytes_in + bytes_in;
        self.bytes_out = self.bytes_out + bytes_out;
    }
}

/// The server-wide counters at one moment.
#[derive(Debug, Clone, Copy)]
pub struct MetricsSnapshot {
    pub requests_total: u64,
    pub requests_get: u64,
    pub requests_put: u64,
    pub requests_delete: u64,
    pub requests_head: u64,
    pub bytes_in: u64,
    pub bytes_out: u64,
    pub errors_total: u64,
    pub uptime_secs: u64,
}

/// The request methods that have a counter of their own.
#[derive(Debug, Clone, Copy, PartialEq, Eq, Structural)]
pub enum CountedMethod {
    Get,
    Put,
    Delete,
    Head,
}

/// The counter of its own that a request method has, if any.
pub fn counted_method(method: &str) -> (r: Option<CountedMethod>)
    ensures
        r == (if method@ == "GET"@ {
            Some(CountedMethod::Get)
        } else if method@ == "PUT"@ {
            Some(CountedMethod::Put)
        } else if method@ == "DELETE"@ {
            Some(CountedMethod::Delete)
        } else if method@ == "HEAD"@ {
            Some(CountedMethod::Head)
        } else {
            None
        }),
{
    if crate::scan::str_eq(method, "GET") {
        Some(CountedMethod::Get)
    } else if crate::scan::str_eq(method, "PUT") {
        Some(CountedMethod::Put)
    } else if crate::scan::str_eq(method, "DELETE") {
        Some(CountedMethod::Delete)
    } else if crate::scan::str_eq(method, "HEAD") {
        Some(CountedMethod::Head)
    } else {
        None
    }
}

// ---------------------------------------------------------------------------
// Sizes

pub open spec fn two_pow(e: nat) -> nat
    decreases e,
{
    if e == 0 {
        1
    } else {
        2 * two_pow((e - 1) as nat)
    }
}

/// `n / d` rounded to the nearest integer, ties to the even one.
pub open spec fn round_half_even(n: nat, d: nat) -> nat
    recommends
        d > 0,
{
    let q = n / d;
    let r = n % d;
    if 2 * r > d {
        q + 1
    } else if 2 * r == d {
        q + q % 2
    } else {
        q
    }
}

/// The number of low bits that do not fit in the 53-bit significand of a
/// double.
pub open spec fn excess_bits(b: nat) -> nat
    decreases b,
{
    if b < 9007199254740992 {
        0
    } else {
        1 + excess_bits(b / 2)
    }
}

/// The value of `b as f64`: `b` rounded to 53 significant bits, ties to even.
pub open spec fn f64_value(b: nat) -> nat {
    let u = two_pow(excess_bits(b));
    round_half_even(b, u) * u
}

/// The hundredths of `b as f64 / 2^k as f64`, rounded half to even as
/// `{:.2}` formatting rounds them.
pub open spec fn scaled_hundredths(b: nat, k: nat) -> nat {
    round_half_even(100 * f64_value(b), two_pow(k))
}

/// A number of hundredths written with two decimals.
pub open spec fn fixed2(h: nat) -> Seq<char> {
    dec_digits(h / 100) + "."@ + seq![digit_char(((h % 100) / 10) as int), digit_char((h % 10) as int)]
}

/// A byte count in the largest binary unit (KB = 1024 bytes, up to TB) it
/// reaches, with two decimals; below 1 KB in whole bytes.
pub open spec fn spec_format_bytes(b: u64) -> Seq<char> {
    if b >= two_pow(40) {
        fixed2(scaled_hundredths(b as nat, 40)) + " TB"@
    } else if b >= two_pow(30) {
        fixed2(scaled_hundredths(b as nat, 30)) + " GB"@
    } else if b >= two_pow(20) {
        fixed2(scaled_hundredths(b as nat, 20)) + " MB"@
    } else if b >= two_pow(10) {
        fixed2(scaled_hundredths(b as nat, 10)) + " KB"@
    } else {
        dec_digits(b as nat) + " B"@
    }
}

proof fn lemma_two_pow_values()
    ensures
        two_pow(10) == 1024,
        two_pow(20) == 1048576,
        two_pow(30) == 1073741824,
        two_pow(40) == 1099511627776,
        two_pow(53) == 9007199254740992,
{
    reveal_with_fuel(two_pow, 54);
}

proof fn lemma_two_pow_pos(e: nat)
    ensures
        two_pow(e) > 0,
    decreases e,
{
    if e > 0 {
        lemma_two_pow_pos((e - 1) as nat);
    }
}

fn round_half_even_exec(n: u128, d: u128) -> (r: u128)
    requires
        d > 0,
        n / d < u128::MAX,
    ensures
        r == round_half_even(n as nat, d as nat),
{
    let q = n / d;
    let r = n % d;
    if r > d - r {
        q + 1
    } else if r == d - r {
        q + q % 2
    } else {
        q
    }
}

/// `b as f64`, as an integer.
fn f64_value_exec(b: u64) -> (m: u128)
    ensures
        m == f64_value(b as nat),
        m <= 2 * (b as nat) + 1,
{
    proof {
        lemma_two_pow_values();
    }
    let mut t: u64 = b;
    let mut unit: u128 = 1;
    let ghost mut e: nat = 0;
    while t >= 9007199254740992u64
        invariant
            two_pow(53) == 9007199254740992,
            unit == two_pow(e),
            t == (b as nat) / two_pow(e),
            excess_bits(b as nat) == e + excess_bits(t as nat),
            unit == 1 || unit <= b,
        decreases t,
    {
        proof {
            lemma_two_pow_pos(e);
            vstd::arithmetic::div_mod::lemma_div_denominator(b as int, two_pow(e) as int, 2);
            assert(two_pow(e + 1) == 2 * two_pow(e));
            assert(unit * (t as int) <= b) by (nonlinear_arith)
                requires
                    t == (b as nat) / (unit as nat),
                    unit > 0,
            {
                vstd::arithmetic::div_mod::lemma_fundamental_div_mod(b as int, unit as int);
            }
            assert(2 * unit <= b) by (nonlinear_arith)
                requires
                    unit * (t as int) <= b,
                    t >= 2,
                    unit > 0;
        }
        t = t / 2;
        unit = unit * 2;
        proof {
            e = e + 1;
        }
    }
    proof {
        lemma_two_pow_pos(e);
        assert(t * unit <= b) by (nonlinear_arith)
            requires
                t == (b as nat) / (unit as nat),
                unit > 0,
        {
            vstd::arithmetic::div_mod::lemma_fundamental_div_mod(b as int, unit as int);
        }
    }
    let q = round_half_even_exec(b as u128, unit);
    proof {
        assert(q <= (b as nat) / (unit as nat) + 1);
        assert((b as nat) / (unit as nat) == t);
        assert(q * unit <= 2 * b + 1) by (nonlinear_arith)
            requires
                q <= t + 1,
                t * unit <= b,
                unit == 1 || unit <= b,
                unit > 0,
        {
            assert(q * unit <= (t + 1) * unit);
        }
    }
    q * unit
}

/// Writes `h` hundredths with two decimals.
fn push_fixed2(s: &mut String, h: u128)
    requires
        h / 100 <= u64::MAX,
    ensures
        final(s)@ == old(s)@ + fixed2(h as nat),
{
    let whole: u64 = (h / 100) as u64;
    push_decimal(s, whole);
    push_char(s, '.');
    let frac: u64 = (h % 100) as u64;
    let tens: u64 = frac / 10;
    let ones: u64 = frac % 10;
    proof {
        reveal_strlit(".");
        vstd::arithmetic::div_mod::lemma_mod_mod(h as int, 10, 10);
        assert(ones == (h as nat) % 10);
        assert(tens == ((h as nat) % 100) / 10);
    }
    push_char(s, crate::text::digit(tens));
    push_char(s, crate::text::digit(ones));
    assert(s@ =~= old(s)@ + fixed2(h as nat));
}

/// A byte count for people to read: `512 B`, `1.50 KB`, `2.00 GB`.
pub fn format_bytes(bytes: u64) -> (r: String)
    ensures
        r@ == spec_format_bytes(bytes),
{
    proof {
        lemma_two_pow_values();
    }
    if bytes < 1024 {
        let mut s = String::new();
        push_decimal(&mut s, bytes);
        push_str(&mut s, " B");
        assert(s@ =~= dec_digits(bytes as nat) + " B"@);
        return s;
    }
    let (k, unit): (u128, &str) = if bytes >= 1099511627776u64 {
        (1099511627776u128, " TB")
    } else if bytes >= 1073741824u64 {
        (1073741824u128, " GB")
    } else if bytes >= 1048576u64 {
        (1048576u128, " MB")
    } else {
        (1024u128, " KB")
    };
    let m = f64_value_exec(bytes);
    let h = round_half_even_exec(100 * m, k);
    let mut s = String::new();
    proof {
        assert(h <= (100 * m as int) / (k as int) + 1);
        assert((100 * m as int) / (k as int) <= 100 * m as int);
    }
    push_fixed2(&mut s, h);
    push_str(&mut s, unit);
    s
}

// ---------------------------------------------------------------------------
// Durations

/// A duration in seconds for people to read: days, hours and minutes when
/// it lasts a day or more; hours and minutes when an hour or more; else
/// minutes and seconds.
pub open spec fn spec_format_uptime(secs: u64) -> Seq<char> {
    let days = secs / 86400;
    let hours = (secs % 86400) / 3600;
    let mins = (secs % 3600) / 60;
    if days > 0 {
        dec_digits(days as nat) + "d "@ + dec_digits(hours as nat) + "h "@ + dec_digits(mins as nat) + "m"@
    } else if hours > 0 {
        dec_digits(hours as nat) + "h "@ + dec_digits(mins as nat) + "m"@
    } else {
        dec_digits(mins as nat) + "m "@ + dec_digits((secs % 60) as nat) + "s"@
    }
}

/// An uptime for people to read.
pub fn format_uptime(secs: u64) -> (r: String)
    ensures
        r@ == spec_format_uptime(secs),
{
    let days = secs / 86400;
    let hours = (secs % 86400) / 3600;
    let mins = (secs % 3600) / 60;
    let mut s = String::new();
    if days > 0 {
        push_decimal(&mut s, days);
        push_str(&mut s, "d ");
        push_decimal(&mut s, hours);
        push_str(&mut s, "h ");
        push_decimal(&mut s, mins);
        push_str(&mut s, "m");
    } else if hours > 0 {
        push_decimal(&mut s, hours);
        push_str(&mut s, "h ");
        push_decimal(&mut s, mins);
        push_str(&mut s, "m");
    } else {
        push_decimal(&mut s, mins);
        push_str(&mut s, "m ");
        push_decimal(&mut s, secs % 60);
        push_str(&mut s, "s");
    }
    assert(s@ =~= spec_format_uptime(secs));
    s
}

} // verus!
