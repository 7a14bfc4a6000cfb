//! Numbers as the panels print them: sizes, rates and durations, and the
//! small text sparklines of the memory panel.
//!
//! Sizes are printed the way `format!("{:.1}", x as f64 / 1024.0)` prints
//! them: the integer is first rounded to the nearest `f64` (ties to even),
//! divided by a power of two (exact), and the result is rounded to the
//! given number of decimals, ties to even. All of it is done here in
//! integers.

use vstd::prelude::*;
use vstd::arithmetic::div_mod::{lemma_div_denominator, lemma_fundamental_div_mod};
use crate::text::{chars_of, decimal, digit_char, extend_chars, string_from_chars};

verus! {

/// 2^53: below it every integer is exactly an `f64`.
pub const F64_EXACT: u128 = 0x20_0000_0000_0000;

/// The spacing of `f64` values around `x`: 1 below 2^53, doubling with
/// each binade above.
pub open spec fn f64_step(x: nat) -> nat
    decreases x,
{
    if x < F64_EXACT {
        1
    } else {
        2 * f64_step(x / 2)
    }
}

/// `n / d` rounded to the nearest integer, ties to even.
pub open spec fn round_even(n: nat, d: nat) -> nat {
    let q = n / d;
    let r = n % d;
    if 2 * r > d || (2 * r == d && q % 2 == 1) {
        q + 1
    } else {
        q
    }
}

/// The `f64` nearest to `x` (ties to even), as `x as f64` gives it.
pub open spec fn f64_of(x: nat) -> nat {
    round_even(x, f64_step(x)) * f64_step(x)
}

/// 10 to the `p`.
pub open spec fn pow10(p: nat) -> nat
    decreases p,
{
    if p == 0 {
        1
    } else {
        10 * pow10((p - 1) as nat)
    }
}

/// `n` with at least `p` digits, zeros in front.
pub open spec fn padded(n: nat, p: nat) -> Seq<char> {
    let d = decimal(n);
    if d.len() < p {
        Seq::new((p - d.len()) as nat, |i: int| '0') + d
    } else {
        d
    }
}

/// The number `v / 10^p` printed with `p` decimals.
pub open spec fn with_decimals(v: nat, p: nat) -> Seq<char> {
    if p == 0 {
        decimal(v)
    } else {
        decimal(v / pow10(p)) + seq!['.'] + padded(v % pow10(p), p)
    }
}

/// `x as f64 / d as f64` printed with `p` decimals, for `d` a power of two.
pub open spec fn fixed(x: nat, d: nat, p: nat) -> Seq<char> {
    with_decimals(round_even(f64_of(x) * pow10(p), d), p)
}

fn round_even_u128(n: u128, d: u128) -> (r: u128)
    requires
        d > 0,
        n / d + 1 <= u128::MAX,
    ensures
        r == round_even(n as nat, d as nat),
{
    let q = n / d;
    let rem = n % d;
    if rem > d - rem || (rem == d - rem && q % 2 == 1) {
        q + 1
    } else {
        q
    }
}

/// The `f64` nearest to `x`, exactly.
pub fn f64_value(x: u64) -> (r: u128)
    ensures
        r == f64_of(x as nat),
        r <= 0x2_0000_0000_0000_0000,
{
    let mut y: u128 = x as u128;
    let mut d: u128 = 1;
    while y >= F64_EXACT
        invariant
            1 <= d <= 0x1_0000_0000_0000_0000,
            y == (x as nat) / (d as nat),
            f64_step(x as nat) == d * f64_step(y as nat),
        decreases y,
    {
        proof {
            lemma_div_denominator(x as int, d as int, 2);
            lemma_fundamental_div_mod(x as int, d as int);
            assert(d * F64_EXACT <= x) by (nonlinear_arith)
                requires
                    d * y <= x,
                    y >= F64_EXACT,
                    d >= 1,
            ;
            let fy = f64_step((y / 2) as nat);
            assert(f64_step(y as nat) == 2 * fy);
            assert(d * (2 * fy) == (d * 2) * fy) by (nonlinear_arith);
        }
        y = y / 2;
        d = d * 2;
    }
    proof {
        lemma_fundamental_div_mod(x as int, d as int);
        let fy = f64_step(y as nat);
        assert(fy == 1);
        assert(d * fy == d) by (nonlinear_arith)
            requires
                fy == 1,
        ;
        assert(f64_step(x as nat) == d);
        assert(d * y <= x);
    }
    let q = round_even_u128(x as u128, d);
    proof {
        assert(q <= y + 1);
        assert(q * d <= 0x2_0000_0000_0000_0000) by (nonlinear_arith)
            requires
                q <= y + 1,
                d >= 1,
                d * y <= x,
                x < 0x1_0000_0000_0000_0000,
                d <= 0x1_0000_0000_0000_0000,
        ;
    }
    q * d
}

/// The decimal digits of `n`.
fn decimal_u128(n: u128) -> (r: Vec<char>)
    ensures
        r@ == decimal(n as nat),
    decreases n,
{
    if n < 10 {
        let mut v: Vec<char> = Vec::new();
        v.push(crate::text::digit(n as u64));
        v
    } else {
        let mut v = decimal_u128(n / 10);
        v.push(crate::text::digit((n % 10) as u64));
        v
    }
}

/// `x as f64 / d as f64` printed with `p` (at most 2) decimals.
pub fn fixed_text(x: u64, d: u128, p: u32) -> (r: Vec<char>)
    requires
        1 <= d <= 0x4000_0000,
        p <= 2,
    ensures
        r@ == fixed(x as nat, d as nat, p as nat),
{
    let m = f64_value(x);
    let scale: u128 = if p == 0 {
        1
    } else if p == 1 {
        10
    } else {
        100
    };
    proof {
        reveal_with_fuel(pow10, 3);
        assert(m * scale <= 0x2_0000_0000_0000_0000 * 100) by (nonlinear_arith)
            requires
                m <= 0x2_0000_0000_0000_0000,
                scale <= 100,
        ;
    }
    let v = round_even_u128(m * scale, d);
    if p == 0 {
        return decimal_u128(v);
    }
    let mut out = decimal_u128(v / scale);
    out.push('.');
    let frac = decimal_u128(v % scale);
    let fl = frac.len();
    if p == 2 && fl < 2 {
        out.push('0');
    }
    extend_chars(&mut out, frac.as_slice());
    proof {
        let f = decimal((v % scale) as nat);
        if p == 2 && fl < 2 {
            assert(Seq::new(1, |i: int| '0') =~= seq!['0']);
        } else {
            lemma_decimal_small((v % scale) as nat);
        }
    }
    out
}

proof fn lemma_decimal_small(n: nat)
    ensures
        n < 10 ==> decimal(n).len() == 1,
        10 <= n < 100 ==> decimal(n).len() == 2,
{
    if n >= 10 {
        assert(decimal(n) == decimal(n / 10).push(digit_char((n % 10) as int)));
    }
}

/// Kilobytes as megabytes: no decimals from 100 MB up, else one.
pub open spec fn mb_text(kb: nat) -> Seq<char> {
    if f64_of(kb) >= 100 * 1024 {
        fixed(kb, 1024, 0) + " MB"@
    } else {
        fixed(kb, 1024, 1) + " MB"@
    }
}

fn with_unit(mut digits: Vec<char>, unit: &str) -> (r: String)
    ensures
        r@ == digits@ + unit@,
{
    let u = chars_of(unit);
    extend_chars(&mut digits, u.as_slice());
    string_from_chars(digits.as_slice())
}

/// Kilobytes as megabytes, as the memory and monitor panels print them.
pub fn format_mb(kb: u64) -> (r: String)
    ensures
        r@ == mb_text(kb as nat),
{
    let m = f64_value(kb);
    if m >= 100 * 1024 {
        with_unit(fixed_text(kb, 1024, 0), " MB")
    } else {
        with_unit(fixed_text(kb, 1024, 1), " MB")
    }
}

/// Kilobytes as megabytes with two decimals.
pub fn format_mb_precise(kb: u64) -> (r: String)
    ensures
        r@ == fixed(kb as nat, 1024, 2) + " MB"@,
{
    with_unit(fixed_text(kb, 1024, 2), " MB")
}

/// A byte rate: whole bytes below a kilobyte, else one decimal of KB or MB.
pub open spec fn rate_text(bps: nat) -> Seq<char> {
    if bps < 1024 {
        decimal(bps) + " B/s"@
    } else if bps < 1024 * 1024 {
        fixed(bps, 1024, 1) + " KB/s"@
    } else {
        fixed(bps, 1024 * 1024, 1) + " MB/s"@
    }
}

pub fn format_rate(bps: u64) -> (r: String)
    ensures
        r@ == rate_text(bps as nat),
{
    if bps < 1024 {
        with_unit(crate::text::decimal_chars(bps), " B/s")
    } else if bps < 1024 * 1024 {
        with_unit(fixed_text(bps, 1024, 1), " KB/s")
    } else {
        with_unit(fixed_text(bps, 1024 * 1024, 1), " MB/s")
    }
}

/// A byte count: whole bytes below a kilobyte, one decimal of KB or MB,
/// two of GB.
pub open spec fn bytes_text(b: nat) -> Seq<char> {
    if b < 1024 {
        decimal(b) + " B"@
    } else if b < 1024 * 1024 {
        fixed(b, 1024, 1) + " KB"@
    } else if b < 1024 * 1024 * 1024 {
        fixed(b, 1024 * 1024, 1) + " MB"@
    } else {
        fixed(b, 1024 * 1024 * 1024, 2) + " GB"@
    }
}

pub fn format_bytes(bytes: u64) -> (r: String)
    ensures
        r@ == bytes_text(bytes as nat),
{
    if bytes < 1024 {
        with_unit(crate::text::decimal_chars(bytes), " B")
    } else if bytes < 1024 * 1024 {
        with_unit(fixed_text(bytes, 1024, 1), " KB")
    } else if bytes < 1024 * 1024 * 1024 {
        with_unit(fixed_text(bytes, 1024 * 1024, 1), " MB")
    } else {
        with_unit(fixed_text(bytes, 1024 * 1024 * 1024, 2), " GB")
    }
}

/// A session's size: as `bytes_text`, but gigabytes with one decimal.
pub open spec fn size_text(b: nat) -> Seq<char> {
    if b < 1024 {
        decimal(b) + " B"@
    } else if b < 1024 * 1024 {
        fixed(b, 1024, 1) + " KB"@
    } else if b < 1024 * 1024 * 1024 {
        fixed(b, 1024 * 1024, 1) + " MB"@
    } else {
        fixed(b, 1024 * 1024 * 1024, 1) + " GB"@
    }
}

pub fn format_size(bytes: u64) -> (r: String)
    ensures
        r@ == size_text(bytes as nat),
{
    if bytes < 1024 {
        with_unit(crate::text::decimal_chars(bytes), " B")
    } else if bytes < 1024 * 1024 {
        with_unit(fixed_text(bytes, 1024, 1), " KB")
    } else if bytes < 1024 * 1024 * 1024 {
        with_unit(fixed_text(bytes, 1024 * 1024, 1), " MB")
    } else {
        with_unit(fixed_text(bytes, 1024 * 1024 * 1024, 1), " GB")
    }
}

/// A duration in whole seconds: `5s`, `1m15s`, `1h2m`.
pub open spec fn duration_text(secs: nat) -> Seq<char> {
    if secs < 60 {
        decimal(secs) + "s"@
    } else if secs < 3600 {
        decimal(secs / 60) + "m"@ + decimal(secs % 60) + "s"@
    } else {
        decimal(secs / 3600) + "h"@ + decimal((secs % 3600) / 60) + "m"@
    }
}

pub fn format_duration(secs: u64) -> (r: String)
    ensures
        r@ == duration_text(secs as nat),
{
    let mut out: Vec<char>;
    if secs < 60 {
        out = crate::text::decimal_chars(secs);
        out.push('s');
    } else if secs < 3600 {
        out = crate::text::decimal_chars(secs / 60);
        out.push('m');
        let s = crate::text::decimal_chars(secs % 60);
        extend_chars(&mut out, s.as_slice());
        out.push('s');
    } else {
        out = crate::text::decimal_chars(secs / 3600);
        out.push('h');
        let m = crate::text::decimal_chars((secs % 3600) / 60);
        extend_chars(&mut out, m.as_slice());
        out.push('m');
    }
    proof {
        reveal_strlit("s");
        reveal_strlit("m");
        reveal_strlit("h");
    }
    string_from_chars(out.as_slice())
}


// ---------------------------------------------------------------------------
// Sparklines
// ---------------------------------------------------------------------------

/// The eight bar heights, lowest first.
pub open spec fn spark(i: int) -> char {
    if i <= 0 {
        '▁'
    } else if i == 1 {
        '▂'
    } else if i == 2 {
        '▃'
    } else if i == 3 {
        '▄'
    } else if i == 4 {
        '▅'
    } else if i == 5 {
        '▆'
    } else if i == 6 {
        '▇'
    } else {
        '█'
    }
}

fn spark_char(i: u64) -> (c: char)
    ensures
        c == spark(i as int),
{
    if i == 0 {
        '▁'
    } else if i == 1 {
        '▂'
    } else if i == 2 {
        '▃'
    } else if i == 3 {
        '▄'
    } else if i == 4 {
        '▅'
    } else if i == 5 {
        '▆'
    } else if i == 6 {
        '▇'
    } else {
        '█'
    }
}

/// The smallest of `s`.
pub open spec fn min_of(s: Seq<u64>) -> u64
    decreases s.len(),
{
    if s.len() <= 1 {
        s[0]
    } else if s.last() < min_of(s.drop_last()) {
        s.last()
    } else {
        min_of(s.drop_last())
    }
}

/// The largest of `s`.
pub open spec fn max_of(s: Seq<u64>) -> u64
    decreases s.len(),
{
    if s.len() <= 1 {
        s[0]
    } else if s.last() > max_of(s.drop_last()) {
        s.last()
    } else {
        max_of(s.drop_last())
    }
}

pub proof fn lemma_min_max(s: Seq<u64>)
    requires
        s.len() > 0,
    ensures
        forall|i: int| 0 <= i < s.len() ==> min_of(s) <= #[trigger] s[i] <= max_of(s),
    decreases s.len(),
{
    if s.len() > 1 {
        lemma_min_max(s.drop_last());
        assert forall|i: int| 0 <= i < s.len() implies min_of(s) <= #[trigger] s[i] <= max_of(s) by {
            if i < s.len() - 1 {
                assert(s[i] == s.drop_last()[i]);
            }
        }
    }
}

/// The last `width` values (all of them when there are fewer).
pub open spec fn spark_window(data: Seq<u64>, width: nat) -> Seq<u64> {
    if data.len() > width {
        data.skip(data.len() - width)
    } else {
        data
    }
}

/// The bar for `v` on a scale from `lo` to `hi`: the middle one when all
/// values are equal.
pub open spec fn spark_bar(v: u64, lo: u64, hi: u64) -> char {
    if hi == lo {
        spark(3)
    } else {
        let idx = (v - lo) * 7 / (hi - lo);
        spark(if idx > 7 {
            7
        } else {
            idx
        })
    }
}

/// A sparkline of the last `width` values, each scaled between the
/// window's smallest and largest value.
pub open spec fn sparkline(data: Seq<u64>, width: nat) -> Seq<char> {
    let w = spark_window(data, width);
    if w.len() == 0 {
        Seq::empty()
    } else {
        w.map_values(|v: u64| spark_bar(v, min_of(w), max_of(w)))
    }
}

/// The values whose scaling could pass `u64::MAX` are left out, and so is
/// a zero width over values, which picks from an empty window.
pub open spec fn sparkline_in_bounds(data: Seq<u64>, width: nat) -> bool {
    data.len() > 0 ==> {
        &&& width > 0
        &&& (max_of(spark_window(data, width)) - min_of(spark_window(data, width))) * 7 <= u64::MAX
    }
}

/// The sparkline of the last `width` values of `data`.
pub fn sparkline_str(data: &[u64], width: usize) -> (r: String)
    requires
        sparkline_in_bounds(data@, width as nat),
    ensures
        r@ == sparkline(data@, width as nat),
{
    let n = data.len();
    if n == 0 {
        return String::new();
    }
    let start = if n > width {
        n - width
    } else {
        0
    };
    let w = &data[start..n];
    proof {
        assert(w@ =~= spark_window(data@, width as nat));
    }
    let wn = w.len();
    let mut lo = w[0];
    let mut hi = w[0];
    let mut i: usize = 1;
    while i < wn
        invariant
            1 <= i <= wn,
            wn == w@.len(),
            lo == min_of(w@.take(i as int)),
            hi == max_of(w@.take(i as int)),
        decreases wn - i,
    {
        proof {
            assert(w@.take(i + 1).drop_last() =~= w@.take(i as int));
        }
        if w[i] < lo {
            lo = w[i];
        }
        if w[i] > hi {
            hi = w[i];
        }
        i = i + 1;
    }
    proof {
        assert(w@.take(wn as int) =~= w@);
        lemma_min_max(w@);
    }
    let range = hi - lo;
    let mut out: Vec<char> = Vec::new();
    let mut k: usize = 0;
    while k < wn
        invariant
            k <= wn,
            wn == w@.len(),
            lo == min_of(w@),
            hi == max_of(w@),
            range == hi - lo,
            range * 7 <= u64::MAX,
            forall|j: int| 0 <= j < w@.len() ==> lo <= #[trigger] w@[j] <= hi,
            out@ == w@.take(k as int).map_values(|v: u64| spark_bar(v, lo, hi)),
        decreases wn - k,
    {
        let v = w[k];
        let c = if range == 0 {
            spark_char(3)
        } else {
            proof {
                assert((v - lo) * 7 <= range * 7) by (nonlinear_arith)
                    requires
                        v - lo <= range,
                ;
            }
            let idx = (v - lo) * 7 / range;
            spark_char(if idx > 7 {
                7
            } else {
                idx
            })
        };
        out.push(c);
        proof {
            assert(w@.take(k + 1).map_values(|v: u64| spark_bar(v, lo, hi)) =~= w@.take(
                k as int,
            ).map_values(|v: u64| spark_bar(v, lo, hi)).push(spark_bar(v, lo, hi)));
        }
        k = k + 1;
    }
    proof {
        assert(w@.take(wn as int) =~= w@);
    }
    string_from_chars(out.as_slice())
}
} // verus!
