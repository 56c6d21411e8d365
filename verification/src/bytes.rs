//! Byte counts as the attachment status line shows them: plain bytes below one
//! KiB, then whole KiB, MiB with one decimal and GiB with two, each the value
//! that `n as f64` divided by the unit rounds to, ties to even.
use crate::text::{dec, push_char, push_decimal};
use vstd::prelude::*;

verus! {

/// `2` raised to `k`.
pub open spec fn p2(k: nat) -> nat
    decreases k,
{
    if k == 0 {
        1
    } else {
        2 * p2((k - 1) as nat)
    }
}

/// Number of binary digits of `n` (0 for 0).
pub open spec fn bit_length(n: nat) -> nat
    decreases n,
{
    if n == 0 {
        0
    } else {
        1 + bit_length(n / 2)
    }
}

/// `n / d` rounded to the nearest integer, ties to the even neighbour.
pub open spec fn round_half_even_div(n: nat, d: nat) -> nat
    recommends
        d > 0,
{
    let q = n / d;
    let r = n % d;
    if 2 * r < d {
        q
    } else if 2 * r > d {
        q + 1
    } else if q % 2 == 0 {
        q
    } else {
        q + 1
    }
}

/// The integer that `n as f64` holds: `n` rounded to 53 significant bits,
/// ties to even.
pub open spec fn f64_integer_value(n: nat) -> nat {
    if bit_length(n) <= 53 {
        n
    } else {
        let p = p2((bit_length(n) - 53) as nat);
        round_half_even_div(n, p) * p
    }
}

/// `10` raised to `k`.
pub open spec fn p10(k: nat) -> nat
    decreases k,
{
    if k == 0 {
        1
    } else {
        10 * p10((k - 1) as nat)
    }
}

/// `n` bytes in `unit`-sized units with `places` decimals, as an integer count
/// of the last decimal place.
pub open spec fn scaled_amount(n: nat, unit: nat, places: nat) -> nat {
    round_half_even_div(f64_integer_value(n) * p10(places), unit)
}

/// Two decimal digits of `f` (`f < 100`), with a leading zero below ten.
pub open spec fn two_digits(f: nat) -> Seq<char> {
    if f < 10 {
        seq!['0'] + dec(f)
    } else {
        dec(f)
    }
}

/// The fixed-point numeral of `x / 10^places` for `places` in 0..=2.
pub open spec fn fixed_point(x: nat, places: nat) -> Seq<char> {
    if places == 0 {
        dec(x)
    } else if places == 1 {
        dec(x / 10) + seq!['.'] + dec(x % 10)
    } else {
        dec(x / 100) + seq!['.'] + two_digits(x % 100)
    }
}

/// The text of `fmt_bytes(n)`.
pub open spec fn fmt_bytes_spec(n: nat) -> Seq<char> {
    if n >= p2(30) {
        fixed_point(scaled_amount(n, p2(30), 2), 2) + " GB"@
    } else if n >= p2(20) {
        fixed_point(scaled_amount(n, p2(20), 1), 1) + " MB"@
    } else if n >= 1024 {
        dec(scaled_amount(n, 1024, 0)) + " KB"@
    } else {
        dec(n) + " B"@
    }
}

proof fn lemma_bit_length_bound(x: nat, k: nat)
    requires
        x < p2(k),
    ensures
        bit_length(x) <= k,
    decreases k,
{
    if x > 0 {
        assert(k > 0);
        lemma_bit_length_bound(x / 2, (k - 1) as nat);
    }
}

proof fn lemma_p2_values()
    ensures
        p2(10) == 1024,
        p2(20) == 1048576,
        p2(30) == 1073741824,
        p2(64) == 0x1_0000_0000_0000_0000,
{
    reveal_with_fuel(p2, 65);
}

fn round_half_even(n: u128, d: u128) -> (r: u128)
    requires
        0 < d <= 0x1_0000_0000_0000_0000,
        n < 0x1_0000_0000_0000_0000_0000_0000,
    ensures
        r == round_half_even_div(n as nat, d as nat),
{
    let q = n / d;
    let r = n % d;
    assert(q <= n) by (nonlinear_arith)
        requires
            d > 0,
            q == n / d,
    ;
    if 2 * r < d {
        q
    } else if 2 * r > d {
        q + 1
    } else if q % 2 == 0 {
        q
    } else {
        q + 1
    }
}

/// The integer value of `n as f64`.
fn f64_integer(n: u64) -> (v: u128)
    ensures
        v == f64_integer_value(n as nat),
        v <= 0x1_0000_0000_0000_0000,
{
    let mut bits: u64 = 0;
    let mut x: u64 = n;
    proof {
        lemma_p2_values();
        lemma_bit_length_bound(n as nat, 64);
    }
    while x > 0
        invariant
            bits + bit_length(x as nat) == bit_length(n as nat),
            bit_length(n as nat) <= 64,
        decreases x,
    {
        x = x / 2;
        bits = bits + 1;
    }
    if bits <= 53 {
        return n as u128;
    }
    let s = bits - 53;
    let mut p: u128 = 1;
    let mut k: u64 = 0;
    while k < s
        invariant
            s <= 11,
            k <= s,
            p == p2(k as nat),
            1 <= p <= 2048,
        decreases s - k,
    {
        proof {
            reveal_with_fuel(p2, 2);
            assert(p2((k + 1) as nat) == 2 * p2(k as nat));
            if k + 1 <= 11 {
                assert(p2((k + 1) as nat) <= 2048) by {
                    lemma_p2_monotone((k + 1) as nat, 11);
                    reveal_with_fuel(p2, 12);
                }
            }
        }
        p = p * 2;
        k = k + 1;
    }
    let rounded = round_half_even(n as u128, p);
    assert(rounded * p <= 0x1_0000_0000_0000_0000) by {
        lemma_rounded_bound(n as nat, p as nat, s as nat);
    }
    rounded * p
}

proof fn lemma_p2_monotone(a: nat, b: nat)
    requires
        a <= b,
    ensures
        p2(a) <= p2(b),
    decreases b,
{
    if a < b {
        lemma_p2_monotone(a, (b - 1) as nat);
        assert(p2(b) == 2 * p2((b - 1) as nat));
    }
}

proof fn lemma_p2_add(a: nat, b: nat)
    ensures
        p2(a + b) == p2(a) * p2(b),
    decreases a,
{
    if a > 0 {
        let a1 = (a - 1) as nat;
        lemma_p2_add(a1, b);
        assert(a1 + b + 1 == a + b);
        assert(((a + b - 1) as nat) == a1 + b);
        assert(p2(a + b) == 2 * p2(((a + b) - 1) as nat));
        assert(p2(a + b) == 2 * p2(a1 + b));
        assert(p2(a) == 2 * p2(a1));
        assert(2 * (p2(a1) * p2(b)) == (2 * p2(a1)) * p2(b)) by (nonlinear_arith);
    } else {
        assert(p2(0) == 1);
        assert(a + b == b);
    }
}

proof fn lemma_rounded_bound(n: nat, p: nat, s: nat)
    requires
        n < 0x1_0000_0000_0000_0000,
        p == p2(s),
        1 <= s <= 11,
    ensures
        round_half_even_div(n, p) * p <= 0x1_0000_0000_0000_0000,
{
    lemma_p2_monotone(1, s);
    reveal_with_fuel(p2, 2);
    lemma_p2_values();
    lemma_p2_add(s, (64 - s) as nat);
    let m = p2((64 - s) as nat);
    let big: nat = 0x1_0000_0000_0000_0000;
    assert(big == p * m);
    let q = n / p;
    assert((q + 1) * p <= big) by (nonlinear_arith)
        requires
            p > 0,
            q == n / p,
            n < big,
            big == p * m,
    {
        assert(n == q * p + n % p);
        assert(q * p < m * p);
        assert(q < m);
        assert(q + 1 <= m);
    }
    let r = round_half_even_div(n, p);
    assert(r <= q + 1);
    assert(r * p <= (q + 1) * p) by (nonlinear_arith)
        requires
            r <= q + 1,
    ;
}

proof fn lemma_quotient_bound(v: nat, m: nat, d: nat, bound: nat)
    requires
        d > 0,
        v <= 0x1_0000_0000_0000_0000,
        m <= 100,
        bound * d >= 0x1_0000_0000_0000_0000 * 100,
    ensures
        round_half_even_div(v * m, d) <= bound + 1,
{
    let q = (v * m) / d;
    assert(q * d <= v * m) by (nonlinear_arith)
        requires
            d > 0,
            q == (v * m) / d,
    ;
    assert(v * m <= 0x1_0000_0000_0000_0000 * 100) by (nonlinear_arith)
        requires
            v <= 0x1_0000_0000_0000_0000,
            m <= 100,
    ;
    assert(q <= bound) by (nonlinear_arith)
        requires
            d > 0,
            q * d <= bound * d,
    ;
}

#[verifier::spinoff_prover]
fn fmt_gigabytes(n: u64) -> (r: String)
    requires
        n >= 1073741824,
    ensures
        r@ == fmt_bytes_spec(n as nat),
{
    proof {
        lemma_p2_values();
        reveal_with_fuel(p10, 3);
    }
    let mut s = String::new();
    let v = f64_integer(n);
    proof {
        lemma_quotient_bound(v as nat, 100, 1073741824, 0x10_0000_0000 * 100);
    }
    let x = round_half_even(v * 100, 1073741824) as u64;
    push_decimal(&mut s, x / 100);
    push_char(&mut s, '.');
    if x % 100 < 10 {
        push_char(&mut s, '0');
    }
    push_decimal(&mut s, x % 100);
    s.append(" GB");
    assert(s@ =~= fmt_bytes_spec(n as nat));
    s
}

#[verifier::spinoff_prover]
fn fmt_megabytes(n: u64) -> (r: String)
    requires
        1048576 <= n < 1073741824,
    ensures
        r@ == fmt_bytes_spec(n as nat),
{
    proof {
        lemma_p2_values();
        reveal_with_fuel(p10, 3);
    }
    let mut s = String::new();
    let v = f64_integer(n);
    proof {
        lemma_quotient_bound(v as nat, 10, 1048576, 0x1000_0000_0000 * 100);
    }
    let x = round_half_even(v * 10, 1048576) as u64;
    push_decimal(&mut s, x / 10);
    push_char(&mut s, '.');
    push_decimal(&mut s, x % 10);
    s.append(" MB");
    assert(s@ =~= fmt_bytes_spec(n as nat));
    s
}

#[verifier::spinoff_prover]
fn fmt_kilobytes(n: u64) -> (r: String)
    requires
        1024 <= n < 1048576,
    ensures
        r@ == fmt_bytes_spec(n as nat),
{
    proof {
        lemma_p2_values();
        reveal_with_fuel(p10, 3);
    }
    let mut s = String::new();
    let v = f64_integer(n);
    proof {
        lemma_quotient_bound(v as nat, 1, 1024, 0x40_0000_0000_0000 * 100);
    }
    let x = round_half_even(v, 1024) as u64;
    push_decimal(&mut s, x);
    s.append(" KB");
    assert(s@ =~= fmt_bytes_spec(n as nat));
    s
}

/// The byte count `n` as the attachment status line shows it: `"512 B"`,
/// `"1 KB"`, `"1.0 MB"`, `"5.12 GB"`.
pub fn fmt_bytes(n: u64) -> (r: String)
    ensures
        r@ == fmt_bytes_spec(n as nat),
{
    proof {
        lemma_p2_values();
    }
    if n >= 1073741824 {
        fmt_gigabytes(n)
    } else if n >= 1048576 {
        fmt_megabytes(n)
    } else if n >= 1024 {
        fmt_kilobytes(n)
    } else {
        let mut s = String::new();
        push_decimal(&mut s, n);
        s.append(" B");
        assert(s@ =~= fmt_bytes_spec(n as nat));
        s
    }
}

} // verus!
