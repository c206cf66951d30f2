//! Human-readable file sizes, written the way `{:.1}` prints the size as a
//! double in KB, MB or GB.

use vstd::prelude::*;
use crate::text::{decimal, digit_char, push_decimal, string_of};

verus! {

pub open spec fn pow_two(k: nat) -> nat
    decreases k,
{
    if k == 0 { 1 } else { 2 * pow_two((k - 1) as nat) }
}

/// `a / d` rounded to the nearest integer, halves going to the even one.
pub open spec fn round_half_even_div(a: nat, d: nat) -> nat {
    let q = a / d;
    let r = a % d;
    if 2 * r > d || (2 * r == d && q % 2 == 1) { q + 1 } else { q }
}

/// The exponent `k` of the spacing `2^k` between the doubles near `n`: the
/// least `k` that leaves fewer than 53 significant bits.
pub open spec fn float_shift(n: nat, k: nat) -> nat
    decreases 64 - k,
{
    if k >= 64 || n / pow_two(k) < pow_two(53) { k } else { float_shift(n, k + 1) }
}

/// The integer value of `n as f64`: `n` rounded to 53 significant bits,
/// halves going to the even significand.
pub open spec fn as_double(n: nat) -> nat {
    let u = pow_two(float_shift(n, 0));
    round_half_even_div(n, u) * u
}

/// `t` tenths written with one decimal: `12` gives `1.2`.
pub open spec fn one_decimal(t: nat) -> Seq<char> {
    decimal(t / 10) + seq!['.', digit_char(t % 10)]
}

/// The value `v / unit` written with one decimal, rounded half to even.
pub open spec fn scaled(v: nat, unit: nat) -> Seq<char> {
    one_decimal(round_half_even_div(v * 10, unit))
}

/// The text shown for a file of `size` bytes.
pub open spec fn file_size_text(size: nat) -> Seq<char> {
    if size < 1024 {
        decimal(size) + seq![' ', 'B']
    } else if size < 1024 * 1024 {
        scaled(size, 1024) + seq![' ', 'K', 'B']
    } else if size < 1024 * 1024 * 1024 {
        scaled(size, 1024 * 1024) + seq![' ', 'M', 'B']
    } else {
        scaled(as_double(size), 1024 * 1024 * 1024) + seq![' ', 'G', 'B']
    }
}

fn round_half_even_div_exec(a: u128, d: u128) -> (r: u128)
    requires
        0 < d < 0x1_0000_0000_0000_0000_0000,
        a < 0x1_0000_0000_0000_0000_0000_0000,
    ensures
        r == round_half_even_div(a as nat, d as nat),
        r <= a / d + 1,
{
    let q = a / d;
    let r = a % d;
    if 2 * r > d || (2 * r == d && q % 2 == 1) { q + 1 } else { q }
}

/// `n as f64`, as an integer.
fn as_double_exec(n: u64) -> (r: u128)
    ensures
        r == as_double(n as nat),
        r <= 0x1_0000_0000_0000_1000,
{
    let mut u: u128 = 1;
    let mut k: u64 = 0;
    let big: u128 = 0x20_0000_0000_0000;
    proof {
        assert(pow_two(0) == 1);
        assert(pow_two(53) == 0x20_0000_0000_0000) by {
            reveal_with_fuel(pow_two, 54);
        }
    }
    while k < 64 && (n as u128) / u >= big
        invariant
            k <= 64,
            u == pow_two(k as nat),
            1 <= u < 4096,
            big == pow_two(53),
            big == 0x20_0000_0000_0000,
            float_shift(n as nat, 0) == float_shift(n as nat, k as nat),
        decreases 64 - k,
    {
        proof {
            assert(u * big <= n) by (nonlinear_arith)
                requires (n as u128) / u >= big, u >= 1;
            assert(u < 2048) by (nonlinear_arith)
                requires u * big <= n, n < 0x1_0000_0000_0000_0000u128, big == 0x20_0000_0000_0000u128;
        }
        u = u * 2;
        k = k + 1;
    }
    let q = round_half_even_div_exec(n as u128, u);
    proof {
        assert(q * u <= n + u) by (nonlinear_arith)
            requires q <= (n as u128) / u + 1, u >= 1;
    }
    q * u
}

/// The size of a file in bytes, as `B`, `KB`, `MB` or `GB` with one decimal.
pub fn format_file_size(size: u64) -> (r: String)
    ensures
        r@ == file_size_text(size as nat),
{
    let mut out: Vec<char> = Vec::new();
    if size < 1024 {
        push_decimal(&mut out, size as u128);
        out.push(' ');
        out.push('B');
        return string_of(out.as_slice());
    }
    let (value, unit, suffix): (u128, u128, char) = if size < 1024 * 1024 {
        (size as u128, 1024, 'K')
    } else if size < 1024 * 1024 * 1024 {
        (size as u128, 1024 * 1024, 'M')
    } else {
        (as_double_exec(size), 1024 * 1024 * 1024, 'G')
    };
    let t = round_half_even_div_exec(value * 10, unit);
    proof {
        assert(((value * 10) as u128) / unit <= value * 5) by (nonlinear_arith)
            requires unit >= 2, value <= 0x1_0000_0000_0000_1000u128;
        assert(t / 10 <= 0xFFFF_FFFF_FFFF_FFFF);
    }
    push_decimal(&mut out, (t / 10) as u128);
    out.push('.');
    out.push(digit_of((t % 10) as u64));
    out.push(' ');
    out.push(suffix);
    out.push('B');
    let ghost text = if size < 1024 * 1024 {
        scaled(size as nat, 1024) + seq![' ', 'K', 'B']
    } else if size < 1024 * 1024 * 1024 {
        scaled(size as nat, 1024 * 1024) + seq![' ', 'M', 'B']
    } else {
        scaled(as_double(size as nat), 1024 * 1024 * 1024) + seq![' ', 'G', 'B']
    };
    assert(out@ =~= text);
    string_of(out.as_slice())
}

fn digit_of(d: u64) -> (c: char)
    requires
        d < 10,
    ensures
        c == digit_char(d as nat),
{
    if d == 0 { '0' } else if d == 1 { '1' } else if d == 2 { '2' } else if d == 3 { '3' }
    else if d == 4 { '4' } else if d == 5 { '5' } else if d == 6 { '6' } else if d == 7 { '7' }
    else if d == 8 { '8' } else { '9' }
}

} // verus!
