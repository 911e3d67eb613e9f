//! Human-readable sizes. Sizes are shown in binary units (1 KB = 1024 B)
//! with a fixed number of decimals; the value shown is the size as a
//! double-precision number holds it, scaled by a power of two, rounded to
//! the nearest decimal with ties to even.
use vstd::prelude::*;
use vstd::string::*;

use crate::arith::{lemma_pow2n_add, lemma_pow2n_mono, lemma_pow2n_pos, lemma_pow2n_values, pow2n};
use crate::text::{dec, decimal, digit, digit_char, str_chars, string_of_chars};

verus! {

/// How many low bits of `n` a double cannot hold: the number of halvings
/// that bring `n` below `2^53`.
pub open spec fn excess_bits(n: nat) -> nat
    decreases n,
{
    if n < 0x20_0000_0000_0000 {
        0
    } else {
        1 + excess_bits(n / 2)
    }
}

/// `x / d` rounded to the nearest integer, ties to the even one.
pub open spec fn round_half_even(x: nat, d: nat) -> nat {
    let q = x / d;
    let r = x % d;
    if 2 * r > d || (2 * r == d && q % 2 == 1) {
        q + 1
    } else {
        q
    }
}

/// The value of `n as f64`: `n` rounded to 53 significant bits, ties to even.
pub open spec fn round53(n: nat) -> nat {
    let d = pow2n(excess_bits(n));
    round_half_even(n, d) * d
}

/// `x / 2^k` written with one decimal, as `{:.1}` writes a double.
pub open spec fn fixed1(x: nat, k: nat) -> Seq<char> {
    let q = round_half_even(10 * x, pow2n(k));
    dec(q / 10) + seq!['.', digit_char(q % 10)]
}

/// `x / 2^k` written with two decimals, as `{:.2}` writes a double.
pub open spec fn fixed2(x: nat, k: nat) -> Seq<char> {
    let q = round_half_even(100 * x, pow2n(k));
    dec(q / 100) + seq!['.', digit_char((q % 100) / 10), digit_char(q % 10)]
}

/// The name of the binary unit `1024^i`.
pub open spec fn unit_name(i: nat) -> Seq<char> {
    if i == 0 {
        "B"@
    } else if i == 1 {
        "KB"@
    } else if i == 2 {
        "MB"@
    } else if i == 3 {
        "GB"@
    } else if i == 4 {
        "TB"@
    } else {
        "PB"@
    }
}

/// The unit a value is shown in: the largest power of 1024, up to
/// petabytes, that it reaches.
pub open spec fn unit_index(x: nat) -> nat {
    if x < pow2n(10) {
        0
    } else if x < pow2n(20) {
        1
    } else if x < pow2n(30) {
        2
    } else if x < pow2n(40) {
        3
    } else if x < pow2n(50) {
        4
    } else {
        5
    }
}

/// A size with two decimals in its unit: `0.00 B`, `1.50 KB`, `2.00 GB`.
pub open spec fn spec_format_size(size: u64) -> Seq<char> {
    let x = round53(size as nat);
    let i = unit_index(x);
    fixed2(x, 10 * i) + " "@ + unit_name(i)
}

/// A size in the unit `1024^exp` (at most petabytes) with one decimal;
/// whole bytes are shown without decimals, and zero as `0 B`.
pub open spec fn spec_format_bytes_in_unit(bytes: u64, exp: nat) -> Seq<char> {
    let e: nat = if exp < 5 { exp } else { 5 };
    if bytes == 0 {
        "0 B"@
    } else if e == 0 {
        dec(bytes as nat) + " B"@
    } else {
        fixed1(round53(bytes as nat), 10 * e) + " "@ + unit_name(e)
    }
}

fn pow2(k: u32) -> (r: u128)
    requires
        k <= 64,
    ensures
        r == pow2n(k as nat),
{
    let mut r: u128 = 1;
    let mut i: u32 = 0;
    while i < k
        invariant
            i <= k <= 64,
            r == pow2n(i as nat),
        decreases k - i,
    {
        proof {
            lemma_pow2n_mono((i + 1) as nat, 64);
            lemma_pow2n_values();
        }
        r = r * 2;
        i = i + 1;
    }
    r
}

proof fn lemma_excess_bound(n: nat, s: nat)
    requires
        n < pow2n(64),
        n / pow2n(s) >= 0x20_0000_0000_0000,
    ensures
        s < 11,
{
    lemma_pow2n_pos(s);
    lemma_pow2n_values();
    let d = pow2n(s);
    let q = n / d;
    vstd::arithmetic::div_mod::lemma_fundamental_div_mod(n as int, d as int);
    assert(q * d >= 0x20_0000_0000_0000 * d) by (nonlinear_arith)
        requires
            q >= 0x20_0000_0000_0000,
            d >= 1,
    ;
    assert(d * q == q * d) by (nonlinear_arith);
    lemma_pow2n_add(53, s);
    if s >= 11 {
        lemma_pow2n_mono(64, 53 + s);
    }
}

fn div_round_even(x: u128, d: u128) -> (r: u128)
    requires
        0 < d <= 0x1_0000_0000_0000_0000,
        x <= 0x64_0000_0000_0000_0000,
    ensures
        r == round_half_even(x as nat, d as nat),
{
    let q = x / d;
    let r = x % d;
    if 2 * r > d || (2 * r == d && q % 2 == 1) {
        q + 1
    } else {
        q
    }
}

/// The value that `n as f64` holds, as an integer.
pub fn f64_value(n: u64) -> (r: u128)
    ensures
        r == round53(n as nat),
        r <= pow2n(64),
{
    proof {
        lemma_pow2n_values();
        assert(pow2n(0) == 1);
    }
    let mut m: u64 = n;
    let mut s: u32 = 0;
    while m >= 0x20_0000_0000_0000
        invariant
            s < 11 || m < 0x20_0000_0000_0000,
            s <= 11,
            m as nat == n as nat / pow2n(s as nat),
            excess_bits(n as nat) == s + excess_bits(m as nat),
            pow2n(64) == 18446744073709551616,
        decreases m,
    {
        proof {
            lemma_excess_bound(n as nat, s as nat);
            lemma_pow2n_pos(s as nat);
            vstd::arithmetic::div_mod::lemma_div_denominator(n as int, pow2n(s as nat) as int, 2);
            assert(pow2n((s + 1) as nat) == pow2n(s as nat) * 2);
        }
        m = m / 2;
        s = s + 1;
        proof {
            if s >= 11 {
                if m >= 0x20_0000_0000_0000 {
                    lemma_excess_bound(n as nat, s as nat);
                }
            }
        }
    }
    let d = pow2(s);
    let x = n as u128;
    proof {
        lemma_pow2n_mono(s as nat, 11);
        reveal_with_fuel(pow2n, 12);
        assert(x / d == m);
    }
    let q = div_round_even(x, d);
    proof {
        assert(q <= 0x20_0000_0000_0000);
        assert(q * d <= 0x20_0000_0000_0000 * 2048) by (nonlinear_arith)
            requires
                q <= 0x20_0000_0000_0000,
                d <= 2048,
        ;
    }
    q * d
}

fn push_digit(v: &mut Vec<char>, d: u128)
    requires
        d < 10,
    ensures
        final(v)@ == old(v)@.push(digit_char(d as nat)),
{
    v.push(digit(d));
}

/// `x / 2^k` with one decimal.
fn fixed1_string(x: u128, k: u32) -> (s: String)
    requires
        x <= pow2n(64),
        k <= 64,
    ensures
        s@ == fixed1(x as nat, k as nat),
{
    proof {
        lemma_pow2n_values();
        lemma_pow2n_mono(k as nat, 64);
        lemma_pow2n_pos(k as nat);
    }
    let d = pow2(k);
    let q = div_round_even(10 * x, d);
    let head = decimal(q / 10);
    let mut v = str_chars(head.as_str());
    v.push('.');
    push_digit(&mut v, q % 10);
    string_of_chars(v.as_slice())
}

/// `x / 2^k` with two decimals.
fn fixed2_string(x: u128, k: u32) -> (s: String)
    requires
        x <= pow2n(64),
        k <= 64,
    ensures
        s@ == fixed2(x as nat, k as nat),
{
    proof {
        lemma_pow2n_values();
        lemma_pow2n_mono(k as nat, 64);
        lemma_pow2n_pos(k as nat);
    }
    let d = pow2(k);
    let q = div_round_even(100 * x, d);
    let head = decimal(q / 100);
    let mut v = str_chars(head.as_str());
    v.push('.');
    push_digit(&mut v, (q % 100) / 10);
    push_digit(&mut v, q % 10);
    string_of_chars(v.as_slice())
}

fn unit_string(i: usize) -> (s: String)
    ensures
        s@ == unit_name(i as nat),
{
    if i == 0 {
        String::from_str("B")
    } else if i == 1 {
        String::from_str("KB")
    } else if i == 2 {
        String::from_str("MB")
    } else if i == 3 {
        String::from_str("GB")
    } else if i == 4 {
        String::from_str("TB")
    } else {
        String::from_str("PB")
    }
}

/// Formats a size with two decimals in the largest binary unit it reaches
/// (up to PB): `1536` gives `1.50 KB`.
pub fn format_size(size: u64) -> (s: String)
    ensures
        s@ == spec_format_size(size),
{
    proof {
        lemma_pow2n_values();
    }
    let x = f64_value(size);
    let i: usize = if x < 0x400 {
        0
    } else if x < 0x10_0000 {
        1
    } else if x < 0x4000_0000 {
        2
    } else if x < 0x100_0000_0000 {
        3
    } else if x < 0x4_0000_0000_0000 {
        4
    } else {
        5
    };
    let mut s = fixed2_string(x, 10 * i as u32);
    s.append(" ");
    let u = unit_string(i);
    s.append(u.as_str());
    s
}

/// Formats `bytes` in the unit `1024^exp` (petabytes at most) with one
/// decimal; a size in bytes is shown whole, and zero as `0 B`. Choosing
/// `exp` is left to the caller.
pub fn format_bytes_in_unit(bytes: u64, exp: usize) -> (s: String)
    ensures
        s@ == spec_format_bytes_in_unit(bytes, exp as nat),
{
    if bytes == 0 {
        return String::from_str("0 B");
    }
    let e: usize = if exp < 5 { exp } else { 5 };
    if e == 0 {
        let mut s = decimal(bytes as u128);
        s.append(" B");
        return s;
    }
    let x = f64_value(bytes);
    let mut s = fixed1_string(x, 10 * e as u32);
    s.append(" ");
    let u = unit_string(e);
    s.append(u.as_str());
    s
}

/// Formats `bytes` with one decimal in the largest binary unit its value
/// reaches (up to PB): `1536` gives `1.5 KB`, `1023` gives `1023 B`, zero
/// gives `0 B`.
pub fn format_bytes(bytes: u64) -> (s: String)
    ensures
        s@ == spec_format_bytes_in_unit(bytes, unit_index(round53(bytes as nat))),
{
    proof {
        lemma_pow2n_values();
    }
    let x = f64_value(bytes);
    let i: usize = if x < 0x400 {
        0
    } else if x < 0x10_0000 {
        1
    } else if x < 0x4000_0000 {
        2
    } else if x < 0x100_0000_0000 {
        3
    } else if x < 0x4_0000_0000_0000 {
        4
    } else {
        5
    };
    format_bytes_in_unit(bytes, i)
}

} // verus!
