//! Compact number notation: `84000` becomes `84.0k`. The digits are those of
//! dividing the value as an `f64` and printing it with one decimal, computed
//! here with integers: the quotient is rounded to the nearest double
//! (53-bit significand, ties to even), then that double is rounded to one
//! decimal, ties to even.

use crate::text::{decimal, push_char, push_decimal};
use vstd::prelude::*;

verus! {

pub open spec fn two_pow(k: nat) -> nat
    decreases k,
{
    if k == 0 { 1 } else { 2 * two_pow((k - 1) as nat) }
}

/// The number of binary digits of `n` (0 for 0).
pub open spec fn bit_length(n: nat) -> nat
    decreases n,
{
    if n == 0 { 0 } else { 1 + bit_length(n / 2) }
}

/// `a / b` rounded to the nearest integer, ties to even.
pub open spec fn div_round_even(a: nat, b: nat) -> nat
    recommends
        b > 0,
{
    let q = a / b;
    let r = a % b;
    if 2 * r < b {
        q
    } else if 2 * r > b {
        q + 1
    } else if q % 2 == 0 {
        q
    } else {
        q + 1
    }
}

/// The value of `n as f64`: `n` rounded to a 53-bit significand, ties to even.
pub open spec fn as_double(n: nat) -> nat {
    if bit_length(n) <= 53 {
        n
    } else {
        let s = (bit_length(n) - 53) as nat;
        div_round_even(n, two_pow(s)) * two_pow(s)
    }
}

/// For `x >= d`, the double nearest to `x / d` is `m / 2^k` with this `k`.
pub open spec fn quotient_scale(x: nat, d: nat) -> nat {
    (53 - bit_length(x / d)) as nat
}

/// The significand `m` of the double nearest to `x / d`.
pub open spec fn quotient_significand(x: nat, d: nat) -> nat {
    div_round_even(x * two_pow(quotient_scale(x, d)), d)
}

/// The double nearest to `x / d`, rounded to tenths with ties to even, in tenths.
pub open spec fn quotient_tenths(x: nat, d: nat) -> nat {
    div_round_even(10 * quotient_significand(x, d), two_pow(quotient_scale(x, d)))
}

/// `t` tenths written with one decimal.
pub open spec fn one_decimal(t: nat) -> Seq<char> {
    decimal(t / 10).push('.') + decimal(t % 10)
}

/// What `compact_number` writes for `v`.
pub open spec fn compact_number_text(v: nat) -> Seq<char> {
    if v >= 1_000_000 {
        one_decimal(quotient_tenths(as_double(v), 1_000_000)).push('m')
    } else if v >= 1_000 {
        one_decimal(quotient_tenths(v, 1_000)).push('k')
    } else {
        decimal(v)
    }
}

proof fn lemma_two_pow_positive(k: nat)
    ensures
        two_pow(k) >= 1,
    decreases k,
{
    if k > 0 {
        lemma_two_pow_positive((k - 1) as nat);
    }
}

proof fn lemma_two_pow_monotone(a: nat, b: nat)
    requires
        a <= b,
    ensures
        two_pow(a) <= two_pow(b),
    decreases b,
{
    if a < b {
        lemma_two_pow_monotone(a, (b - 1) as nat);
    }
}

proof fn lemma_two_pow_add(a: nat, b: nat)
    ensures
        two_pow(a + b) == two_pow(a) * two_pow(b),
    decreases a,
{
    if a == 0 {
        assert(two_pow(0) == 1);
        assert(a + b == b);
    } else {
        let a1 = (a - 1) as nat;
        lemma_two_pow_add(a1, b);
        let x = two_pow(a1);
        let y = two_pow(b);
        assert(two_pow(a1 + b) == x * y);
        assert(two_pow(a1 + b + 1) == 2 * two_pow(a1 + b));
        assert(a1 + b + 1 == a + b);
        assert(two_pow(a1 + 1) == 2 * x);
        assert(a1 + 1 == a);
        assert((2 * x) * y == 2 * (x * y)) by (nonlinear_arith);
    }
}

/// `n < 2^bit_length(n)` and, for `n > 0`, `2^(bit_length(n) - 1) <= n`.
proof fn lemma_bit_length_bounds(n: nat)
    ensures
        n < two_pow(bit_length(n)),
        n > 0 ==> two_pow((bit_length(n) - 1) as nat) <= n,
    decreases n,
{
    if n > 0 {
        lemma_bit_length_bounds(n / 2);
        if n / 2 > 0 {
            assert(bit_length(n / 2) >= 1);
        } else {
            assert(bit_length(n / 2) == 0);
        }
    }
}

proof fn lemma_bit_length_monotone(a: nat, b: nat)
    requires
        a <= b,
    ensures
        bit_length(a) <= bit_length(b),
    decreases b,
{
    if a > 0 {
        lemma_bit_length_monotone(a / 2, b / 2);
    }
}

fn pow_two(k: u32) -> (r: u128)
    requires
        k <= 60,
    ensures
        r == two_pow(k as nat),
        r <= two_pow(60),
{
    let mut r: u128 = 1;
    let mut i: u32 = 0;
    proof {
        lemma_two_pow_consts();
    }
    while i < k
        invariant
            i <= k <= 60,
            r == two_pow(i as nat),
            two_pow(60) == 0x1000_0000_0000_0000,
        decreases k - i,
    {
        proof {
            lemma_two_pow_monotone((i + 1) as nat, 60);
        }
        r = r * 2;
        i = i + 1;
    }
    proof {
        lemma_two_pow_monotone(k as nat, 60);
    }
    r
}

proof fn lemma_two_pow_consts()
    ensures
        two_pow(8) == 0x100,
        two_pow(16) == 0x1_0000,
        two_pow(32) == 0x1_0000_0000,
        two_pow(52) == 0x10_0000_0000_0000,
        two_pow(53) == 0x20_0000_0000_0000,
        two_pow(60) == 0x1000_0000_0000_0000,
        two_pow(64) == 0x1_0000_0000_0000_0000,
{
    reveal_with_fuel(two_pow, 9);
    lemma_two_pow_add(8, 8);
    lemma_two_pow_add(16, 16);
    lemma_two_pow_add(32, 16);
    lemma_two_pow_add(48, 4);
    assert(two_pow(4) == 16);
    lemma_two_pow_add(52, 1);
    assert(two_pow(1) == 2);
    lemma_two_pow_add(52, 8);
    lemma_two_pow_add(32, 32);
}

/// A number below `2^b` has at most `b` binary digits.
proof fn lemma_bit_length_below(n: nat, b: nat)
    requires
        n < two_pow(b),
    ensures
        bit_length(n) <= b,
    decreases b,
{
    if n > 0 {
        assert(b > 0);
        lemma_bit_length_below(n / 2, (b - 1) as nat);
    }
}

fn bit_len(n: u64) -> (r: u32)
    ensures
        r == bit_length(n as nat),
        r <= 64,
{
    proof {
        lemma_two_pow_consts();
        lemma_bit_length_below(n as nat, 64);
    }
    let mut m = n;
    let mut r: u32 = 0;
    while m > 0
        invariant
            bit_length(n as nat) == r + bit_length(m as nat),
            r + bit_length(m as nat) <= 64,
        decreases m,
    {
        r = r + 1;
        m = m / 2;
    }
    r
}

fn round_even_div(a: u128, b: u128) -> (r: u128)
    requires
        b > 0,
        a / b < 0xffff_ffff_ffff_ffff_ffff_ffff_ffff_ffff,
    ensures
        r == div_round_even(a as nat, b as nat),
{
    let q = a / b;
    let rem = a % b;
    if rem < b - rem {
        q
    } else if rem > b - rem {
        q + 1
    } else if q % 2 == 0 {
        q
    } else {
        q + 1
    }
}

fn double_of(v: u64) -> (r: u128)
    ensures
        r == as_double(v as nat),
        r <= 0x1_0000_0000_0000_0000,
{
    let bits = bit_len(v);
    if bits <= 53 {
        v as u128
    } else {
        let s = bits - 53;
        proof {
            lemma_bit_length_bounds(v as nat);
            lemma_two_pow_add(s as nat, 53);
        }
        let p = pow_two(s);
        let q = round_even_div(v as u128, p);
        proof {
            lemma_two_pow_positive(s as nat);
            lemma_round_bound(v as nat, p as nat, s as nat);
        }
        q * p
    }
}

proof fn lemma_round_bound(v: nat, p: nat, s: nat)
    requires
        p == two_pow(s),
        v < 0x1_0000_0000_0000_0000,
        s <= 11,
        p >= 1,
    ensures
        div_round_even(v, p) * p <= 0x1_0000_0000_0000_0000,
{
    let q = v / p;
    let r = v % p;
    assert(v == q * p + r) by (nonlinear_arith) requires p >= 1, q == v / p, r == v % p;
    lemma_two_pow_add(s, (64 - s) as nat);
    lemma_two_pow_consts();
    let hi = two_pow((64 - s) as nat);
    assert(p * hi == 0x1_0000_0000_0000_0000);
    // q < 2^(64 - s), so q + 1 <= 2^(64 - s)
    assert(q * p <= v) by (nonlinear_arith) requires v == q * p + r, r >= 0;
    assert(q < hi) by (nonlinear_arith) requires q * p <= v, v < p * hi, p >= 1;
    assert((q + 1) * p <= hi * p) by (nonlinear_arith) requires q + 1 <= hi, p >= 1;
}

/// The significand and tenths of the double nearest to `x / d`.
fn tenths_of(x: u128, d: u128) -> (t: u128)
    requires
        (d == 1000 && d <= x < 1_000_000) || (d == 1_000_000 && d <= x <= 0x1_0000_0000_0000_0000),
    ensures
        t == quotient_tenths(x as nat, d as nat),
{
    let n128 = x / d;
    proof {
        assert(n128 < 0x10_0000_0000_0000) by (nonlinear_arith)
            requires n128 == x / d, (d == 1000 && x < 1_000_000) || (d == 1_000_000 && x <= 0x1_0000_0000_0000_0000);
    }
    let n = n128 as u64;
    let e = bit_len(n);
    proof {
        lemma_bit_length_bounds(n as nat);
        lemma_two_pow_consts();
        lemma_bit_length_below(n as nat, 52);
        assert(n >= 1) by (nonlinear_arith) requires d <= x, d >= 1, n == x / d;
    }
    let k = 53 - e;
    let p = pow_two(k);
    proof {
        lemma_scale_bound(x as nat, d as nat, n as nat, e as nat, k as nat, p as nat);
    }
    let m = round_even_div(x * p, d);
    proof {
        let ghost xn = x as nat;
        let ghost pn = p as nat;
        let ghost dn = d as nat;
        assert(m <= xn * pn / dn + 1);
        assert(xn * pn / dn <= 0x20_0000_0000_0000) by (nonlinear_arith)
            requires xn * pn < dn * 0x20_0000_0000_0000, dn >= 1;
        lemma_two_pow_positive(k as nat);
    }
    round_even_div(10 * m, p)
}

proof fn lemma_scale_bound(x: nat, d: nat, n: nat, e: nat, k: nat, p: nat)
    requires
        d >= 1,
        n == x / d,
        n >= 1,
        n < two_pow(e),
        e >= 1,
        e <= 65,
        k == 53 - e,
        e <= 53,
        p == two_pow(k),
    ensures
        x * p < d * 0x20_0000_0000_0000,
{
    assert(x < d * (n + 1)) by (nonlinear_arith) requires n == x / d, d >= 1;
    assert(d * (n + 1) <= d * two_pow(e)) by (nonlinear_arith) requires n + 1 <= two_pow(e), d >= 1;
    lemma_two_pow_add(e, k);
    lemma_two_pow_consts();
    lemma_two_pow_positive(k);
    assert(x * p < d * two_pow(e) * p) by (nonlinear_arith) requires x < d * two_pow(e), p >= 1;
    assert(d * two_pow(e) * p == d * (two_pow(e) * p)) by (nonlinear_arith);
}

/// Appends `t` tenths with one decimal.
fn push_one_decimal(s: &mut String, t: u128)
    requires
        t / 10 <= 0xffff_ffff_ffff_ffff,
    ensures
        final(s)@ == old(s)@ + one_decimal(t as nat),
{
    push_decimal(s, (t / 10) as u64);
    push_char(s, '.');
    push_decimal(s, (t % 10) as u64);
    assert(final(s)@ =~= old(s)@ + one_decimal(t as nat));
}

/// Writes a token count compactly: below 1000 as is, then in thousands (`k`)
/// or millions (`m`) with one decimal.
pub fn compact_number(value: u64) -> (r: String)
    ensures
        r@ == compact_number_text(value as nat),
{
    let mut out = String::new();
    if value >= 1_000_000 {
        let x = double_of(value);
        proof {
            lemma_as_double_floor(value as nat);
        }
        let t = tenths_of(x, 1_000_000);
        proof { lemma_tenths_bound(x as nat, 1_000_000, t as nat); }
        push_one_decimal(&mut out, t);
        push_char(&mut out, 'm');
    } else if value >= 1_000 {
        let t = tenths_of(value as u128, 1_000);
        proof { lemma_tenths_bound(value as nat, 1_000, t as nat); }
        push_one_decimal(&mut out, t);
        push_char(&mut out, 'k');
    } else {
        push_decimal(&mut out, value);
    }
    assert(out@ =~= compact_number_text(value as nat));
    out
}

/// Rounding never takes a value at least `2^20` below one million.
proof fn lemma_as_double_floor(v: nat)
    requires
        1_000_000 <= v < 0x1_0000_0000_0000_0000,
    ensures
        as_double(v) >= 1_000_000,
{
    if bit_length(v) > 53 {
        let s = (bit_length(v) - 53) as nat;
        let p = two_pow(s);
        lemma_two_pow_positive(s);
        lemma_bit_length_bounds(v);
        lemma_two_pow_add(s, 52);
        lemma_two_pow_consts();
        // v >= 2^(s + 52), so v / p >= 2^52 and the rounded significand is at least 2^52
        assert(v / p >= two_pow(52)) by (nonlinear_arith)
            requires v >= two_pow(s + 52), two_pow(s + 52) == p * two_pow(52), p >= 1;
        assert(div_round_even(v, p) >= v / p);
        assert(div_round_even(v, p) * p >= 1_000_000) by (nonlinear_arith)
            requires div_round_even(v, p) >= 0x10_0000_0000_0000, p >= 1;
    }
}

proof fn lemma_tenths_bound(x: nat, d: nat, t: nat)
    requires
        (d == 1000 && d <= x < 1_000_000) || (d == 1_000_000 && d <= x <= 0x1_0000_0000_0000_0000),
        t == quotient_tenths(x, d),
    ensures
        t / 10 <= 0xffff_ffff_ffff_ffff,
{
    let k = quotient_scale(x, d);
    let p = two_pow(k);
    let m = quotient_significand(x, d);
    let n = x / d;
    lemma_bit_length_bounds(n);
    lemma_two_pow_consts();
    assert(n < 0x10_0000_0000_0000) by (nonlinear_arith)
        requires n == x / d, (d == 1000 && x < 1_000_000) || (d == 1_000_000 && x <= 0x1_0000_0000_0000_0000);
    lemma_bit_length_below(n, 52);
    assert(n >= 1) by (nonlinear_arith) requires d <= x, d >= 1, n == x / d;
    lemma_two_pow_positive(k);
    // m <= x * p / d + 1, and x * p / d <= (n + 1) * p, so t <= 10 * m / p + 1 <= 10 * (n + 2) + 1
    assert(x < d * (n + 1)) by (nonlinear_arith) requires n == x / d, d >= 1;
    assert(x * p / d <= (n + 1) * p) by (nonlinear_arith) requires x < d * (n + 1), d >= 1, p >= 1;
    assert(m <= x * p / d + 1);
    assert(10 * m / p <= 10 * (n + 2)) by (nonlinear_arith)
        requires m <= (n + 1) * p + 1, p >= 1;
    assert(t <= 10 * m / p + 1);
    assert(n <= 0x1_0000_0000_0000_0000int / 1000) by (nonlinear_arith) requires n == x / d, d >= 1000, x <= 0x1_0000_0000_0000_0000;
}

} // verus!
