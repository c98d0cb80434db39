//! Byte counts as the user reads them: `1536` is `1.50 KB`.
//!
//! A count is shown in the largest unit (up to TB) in which it is at least
//! one, with one decimal from ten units on and two below. The number shown
//! is the count as a double-precision value divided by the unit, rounded to
//! the nearest decimal with ties to the even digit. All of it is computed in
//! integers.

use crate::text::{
    decimal, padded_decimal, push_decimal, push_padded_decimal, push_str_chars, string_of,
};
use vstd::prelude::*;

verus! {

/// Two to the power `e`.
pub open spec fn pow2(e: nat) -> nat
    decreases e,
{
    if e == 0 {
        1
    } else {
        2 * pow2((e - 1) as nat)
    }
}

/// The quotient `num / den` rounded to the nearest integer, a tie going to
/// the even one.
pub open spec fn round_half_even(num: nat, den: nat) -> nat
    recommends
        den > 0,
{
    let q = num / den;
    let r = num % den;
    if 2 * r > den || (2 * r == den && q % 2 == 1) {
        q + 1
    } else {
        q
    }
}

/// How many low bits of `n` a significand of 53 bits cannot hold.
pub open spec fn excess_bits(n: nat) -> nat
    decreases n,
{
    if n < 0x20_0000_0000_0000 {
        0
    } else {
        1 + excess_bits(n / 2)
    }
}

/// The double-precision value nearest to `n` (ties to the even
/// significand), as an integer. Below 2^53 it is `n` itself.
pub open spec fn nearest_double(n: nat) -> nat {
    let unit = pow2(excess_bits(n));
    round_half_even(n, unit) * unit
}

/// Index of the unit in which `bytes` is shown: 0 for B, up to 4 for TB.
pub open spec fn unit_index(bytes: nat) -> nat {
    if bytes < 1024 {
        0
    } else if bytes < 1024 * 1024 {
        1
    } else if bytes < 1024 * 1024 * 1024 {
        2
    } else if bytes < 1024 * 1024 * 1024 * 1024 {
        3
    } else {
        4
    }
}

/// Number of bytes in one unit of the given index.
pub open spec fn unit_size(index: nat) -> nat {
    if index == 0 {
        1
    } else if index == 1 {
        1024
    } else if index == 2 {
        1024 * 1024
    } else if index == 3 {
        1024 * 1024 * 1024
    } else {
        1024 * 1024 * 1024 * 1024
    }
}

/// Name of the unit of the given index.
pub open spec fn unit_name(index: nat) -> Seq<char> {
    if index == 0 {
        "B"@
    } else if index == 1 {
        "KB"@
    } else if index == 2 {
        "MB"@
    } else if index == 3 {
        "GB"@
    } else {
        "TB"@
    }
}

/// The text for `bytes`.
///
/// Below 1024 it is the count and ` B`. From there on the count, taken as a
/// double, is divided by the unit: from ten units on the text has one
/// decimal, below ten it has two.
pub open spec fn format_bytes_spec(bytes: nat) -> Seq<char> {
    let k = unit_index(bytes);
    if k == 0 {
        decimal(bytes) + " B"@
    } else {
        let den = unit_size(k);
        let m = nearest_double(bytes);
        if m >= 10 * den {
            let tenths = round_half_even(m * 10, den);
            decimal(tenths / 10) + "."@ + decimal(tenths % 10) + " "@ + unit_name(k)
        } else {
            let hundredths = round_half_even(m * 100, den);
            decimal(hundredths / 100) + "."@ + padded_decimal(hundredths % 100, 2) + " "@
                + unit_name(k)
        }
    }
}

/// `num / den` rounded to the nearest integer, ties to even.
fn div_round_half_even(num: u128, den: u128) -> (q: u128)
    requires
        0 < den <= 0x1_0000_0000_0000_0000,
        num < 0x1_0000_0000_0000_0000_0000_0000,
    ensures
        q == round_half_even(num as nat, den as nat),
{
    let q = num / den;
    let r = num % den;
    if 2 * r > den || (2 * r == den && q % 2 == 1) {
        q + 1
    } else {
        q
    }
}

/// A larger exponent gives a power of two that is no smaller.
proof fn lemma_pow2_monotone(a: nat, b: nat)
    requires
        a <= b,
    ensures
        1 <= pow2(a) <= pow2(b),
    decreases b,
{
    if b > 0 {
        if a < b {
            lemma_pow2_monotone(a, (b - 1) as nat);
        } else {
            lemma_pow2_monotone((a - 1) as nat, (b - 1) as nat);
        }
    }
}

/// Powers of two up to the eleventh stay within 2048; later ones do not.
proof fn lemma_pow2_bounds(e: nat)
    ensures
        pow2(e) >= 1,
        e <= 11 ==> pow2(e) <= 0x800,
        e >= 12 ==> pow2(e) >= 0x1000,
{
    assert(pow2(11) == 0x800) by {
        reveal_with_fuel(pow2, 12);
    }
    assert(pow2(12) == 0x1000);
    if e <= 11 {
        lemma_pow2_monotone(e, 11);
    } else {
        lemma_pow2_monotone(12, e);
    }
}

/// The double nearest to `n`, as an integer.
fn nearest_double_of(n: u64) -> (m: u128)
    ensures
        m == nearest_double(n as nat),
        m <= 0x1_0000_0000_0000_0000,
{
    let mut unit: u128 = 1;
    let mut top: u64 = n;
    let ghost mut e: nat = 0;
    while top >= 0x20_0000_0000_0000
        invariant
            unit == pow2(e),
            excess_bits(n as nat) == e + excess_bits(top as nat),
            top as nat * unit as nat <= n,
            n < (top as nat + 1) * unit as nat,
            1 <= unit <= 0x800,
            unit == 1 || top >= 0x10_0000_0000_0000,
        decreases top,
    {
        proof {
            assert(unit < 0x800) by (nonlinear_arith)
                requires
                    top as nat * unit as nat <= 0xffff_ffff_ffff_ffff,
                    top >= 0x20_0000_0000_0000,
                    unit >= 1,
            ;
            lemma_pow2_bounds(e);
            lemma_pow2_bounds(e + 1);
            let t2 = (top / 2) as nat;
            assert(t2 * (2 * unit as nat) <= top as nat * unit as nat) by (nonlinear_arith)
                requires
                    t2 * 2 <= top as nat,
            ;
            assert((top as nat + 1) * unit as nat <= (t2 + 1) * (2 * unit as nat))
                by (nonlinear_arith)
                requires
                    top as nat + 1 <= (t2 + 1) * 2,
            ;
        }
        top = top / 2;
        unit = unit * 2;
        proof {
            e = e + 1;
        }
    }
    let q = div_round_half_even(n as u128, unit);
    proof {
        let nn = n as nat;
        let u = unit as nat;
        assert(nn / u == top as nat) by (nonlinear_arith)
            requires
                top as nat * u <= nn,
                nn < (top as nat + 1) * u,
                u >= 1,
        ;
        assert(q <= top + 1);
        assert(q as nat * u <= 0x20_0000_0000_0000 * 0x800) by (nonlinear_arith)
            requires
                q as nat <= 0x20_0000_0000_0000,
                u <= 0x800,
        ;
    }
    q * unit
}

/// The text for a byte count: `0 B`, `1023 B`, `1.00 KB`, `10.0 KB`,
/// `1.50 MB`.
pub fn format_bytes(bytes: u64) -> (out: String)
    ensures
        out@ == format_bytes_spec(bytes as nat),
{
    let mut text: Vec<char> = Vec::new();
    if bytes < 1024 {
        push_decimal(&mut text, bytes as u128);
        push_str_chars(&mut text, " B");
        proof {
            assert(text@ =~= decimal(bytes as nat) + " B"@);
        }
        return string_of(&text);
    }
    let den: u128 = if bytes < 1024 * 1024 {
        1024
    } else if bytes < 1024 * 1024 * 1024 {
        1024 * 1024
    } else if bytes < 1024 * 1024 * 1024 * 1024 {
        1024 * 1024 * 1024
    } else {
        1024 * 1024 * 1024 * 1024
    };
    let m = nearest_double_of(bytes);
    if m >= 10 * den {
        let tenths = div_round_half_even(m * 10, den);
        push_decimal(&mut text, tenths / 10);
        push_str_chars(&mut text, ".");
        push_decimal(&mut text, tenths % 10);
    } else {
        let hundredths = div_round_half_even(m * 100, den);
        push_decimal(&mut text, hundredths / 100);
        push_str_chars(&mut text, ".");
        push_padded_decimal(&mut text, hundredths % 100, 2);
    }
    push_str_chars(&mut text, " ");
    if bytes < 1024 * 1024 {
        push_str_chars(&mut text, "KB");
    } else if bytes < 1024 * 1024 * 1024 {
        push_str_chars(&mut text, "MB");
    } else if bytes < 1024 * 1024 * 1024 * 1024 {
        push_str_chars(&mut text, "GB");
    } else {
        push_str_chars(&mut text, "TB");
    }
    proof {
        assert(text@ =~= format_bytes_spec(bytes as nat));
    }
    string_of(&text)
}

} // verus!
