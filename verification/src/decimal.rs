//! Decimal rendering of natural numbers and fixed-point values.

use vstd::prelude::*;

verus! {

/// Ten to the power `p`.
pub open spec fn pow10(p: nat) -> nat
    decreases p,
{
    if p == 0 {
        1
    } else {
        10 * pow10((p - 1) as nat)
    }
}

/// Two to the power `p`.
pub open spec fn pow2(p: nat) -> nat
    decreases p,
{
    if p == 0 {
        1
    } else {
        2 * pow2((p - 1) as nat)
    }
}

/// The character of a decimal digit.
pub open spec fn digit_char(d: nat) -> char {
    (d + 48) as char
}

/// The decimal representation of `n`, without leading zeros ("0" for zero).
pub open spec fn dec_digits(n: nat) -> Seq<char>
    decreases n,
{
    if n < 10 {
        seq![digit_char(n)]
    } else {
        dec_digits(n / 10).push(digit_char(n % 10))
    }
}

/// The `p` lowest decimal digits of `n`, zero-padded on the left.
pub open spec fn low_digits(n: nat, p: nat) -> Seq<char>
    decreases p,
{
    if p == 0 {
        seq![]
    } else {
        low_digits(n / 10, (p - 1) as nat).push(digit_char(n % 10))
    }
}

/// `n / 10^p` written with exactly `p` decimals: the integer `n` read
/// as a fixed-point number with `p` digits after the point.
pub open spec fn fixed_point(n: nat, p: nat) -> Seq<char> {
    if p == 0 {
        dec_digits(n)
    } else {
        dec_digits(n / pow10(p)) + seq!['.'] + low_digits(n, p)
    }
}

/// `k` copies of the character `c`.
pub open spec fn repeat_char(c: char, k: nat) -> Seq<char> {
    Seq::new(k, |_i: int| c)
}

/// `s` right-aligned in a field of `width` characters.
pub open spec fn pad_left(s: Seq<char>, width: nat) -> Seq<char> {
    if s.len() >= width {
        s
    } else {
        repeat_char(' ', (width - s.len()) as nat) + s
    }
}

/// `s` left-aligned in a field of `width` characters.
pub open spec fn pad_right(s: Seq<char>, width: nat) -> Seq<char> {
    if s.len() >= width {
        s
    } else {
        s + repeat_char(' ', (width - s.len()) as nat)
    }
}

pub proof fn lemma_pow10_pos(p: nat)
    ensures
        pow10(p) >= 1,
    decreases p,
{
    if p > 0 {
        lemma_pow10_pos((p - 1) as nat);
    }
}

pub proof fn lemma_pow2_pos(p: nat)
    ensures
        pow2(p) >= 1,
    decreases p,
{
    if p > 0 {
        lemma_pow2_pos((p - 1) as nat);
    }
}

pub proof fn lemma_pow2_add(a: nat, b: nat)
    ensures
        pow2(a + b) == pow2(a) * pow2(b),
    decreases a,
{
    if a > 0 {
        let a1 = (a - 1) as nat;
        lemma_pow2_add(a1, b);
        assert(a + b == (a1 + b) + 1);
        assert(pow2(a + b) == 2 * pow2(a1 + b));
        let x = pow2(a1);
        let y = pow2(b);
        assert(2 * (x * y) == (2 * x) * y) by (nonlinear_arith);
    } else {
        assert(pow2(a) == 1);
        assert(a + b == b);
    }
}

pub proof fn lemma_pow2_mono(a: nat, b: nat)
    requires
        a <= b,
    ensures
        pow2(a) <= pow2(b),
    decreases b,
{
    if a < b {
        lemma_pow2_mono(a, (b - 1) as nat);
        lemma_pow2_pos((b - 1) as nat);
    }
}

pub proof fn lemma_pow10_add(a: nat, b: nat)
    ensures
        pow10(a + b) == pow10(a) * pow10(b),
    decreases a,
{
    if a > 0 {
        let a1 = (a - 1) as nat;
        lemma_pow10_add(a1, b);
        assert(a + b == (a1 + b) + 1);
        assert(pow10(a + b) == 10 * pow10(a1 + b));
        let x = pow10(a1);
        let y = pow10(b);
        assert(10 * (x * y) == (10 * x) * y) by (nonlinear_arith);
    } else {
        assert(pow10(a) == 1);
        assert(a + b == b);
    }
}

/// The exec value of `pow10`, for exponents that fit.
pub fn pow10_u128(p: u32) -> (r: u128)
    requires
        p <= 30,
    ensures
        r == pow10(p as nat),
{
    let mut r: u128 = 1;
    let mut i: u32 = 0;
    while i < p
        invariant
            i <= p <= 30,
            r == pow10(i as nat),
        decreases p - i,
    {
        proof {
            lemma_pow10_add(i as nat, 1);
            lemma_pow10_mono(i as nat + 1, 30);
            lemma_pow10_30();
        }
        r = r * 10;
        i = i + 1;
    }
    r
}

pub proof fn lemma_pow10_30()
    ensures
        pow10(30) == 1000000000000000000000000000000,
{
    reveal_with_fuel(pow10, 31);
}

pub proof fn lemma_pow10_mono(a: nat, b: nat)
    requires
        a <= b,
    ensures
        pow10(a) <= pow10(b),
    decreases b,
{
    if a < b {
        lemma_pow10_mono(a, (b - 1) as nat);
        lemma_pow10_pos((b - 1) as nat);
    }
}

/// The character of the digit `d`.
pub fn digit(d: u8) -> (c: char)
    requires
        d < 10,
    ensures
        c == digit_char(d as nat),
{
    ((d + 48) as u8) as char
}

/// Appends the decimal representation of `n`.
pub fn push_dec(n: u128, out: &mut Vec<char>)
    ensures
        final(out)@ == old(out)@ + dec_digits(n as nat),
    decreases n,
{
    if n >= 10 {
        push_dec(n / 10, out);
    }
    out.push(digit((n % 10) as u8));
    assert(old(out)@ + dec_digits(n as nat) =~= if n >= 10 {
        (old(out)@ + dec_digits((n / 10) as nat)).push(digit_char((n % 10) as nat))
    } else {
        old(out)@.push(digit_char((n % 10) as nat))
    });
}

/// Appends the `p` lowest decimal digits of `n`, zero-padded.
pub fn push_low_digits(n: u128, p: u32, out: &mut Vec<char>)
    ensures
        final(out)@ == old(out)@ + low_digits(n as nat, p as nat),
    decreases p,
{
    if p > 0 {
        push_low_digits(n / 10, p - 1, out);
        out.push(digit((n % 10) as u8));
        assert(old(out)@ + low_digits(n as nat, p as nat) =~= (old(out)@ + low_digits(
            (n / 10) as nat,
            (p - 1) as nat,
        )).push(digit_char((n % 10) as nat)));
    } else {
        assert(old(out)@ + low_digits(n as nat, p as nat) =~= old(out)@);
    }
}

/// Appends `n` read as a fixed-point number with `p` decimals.
pub fn push_fixed(n: u128, p: u32, out: &mut Vec<char>)
    requires
        p <= 30,
    ensures
        final(out)@ == old(out)@ + fixed_point(n as nat, p as nat),
{
    if p == 0 {
        push_dec(n, out);
    } else {
        let d = pow10_u128(p);
        proof {
            lemma_pow10_pos(p as nat);
        }
        push_dec(n / d, out);
        out.push('.');
        push_low_digits(n, p, out);
        assert(old(out)@ + fixed_point(n as nat, p as nat) =~= old(out)@ + dec_digits(
            (n / d) as nat,
        ) + seq!['.'] + low_digits(n as nat, p as nat));
    }
}

/// Appends `k` copies of `c`.
pub fn push_repeat(c: char, k: usize, out: &mut Vec<char>)
    ensures
        final(out)@ == old(out)@ + repeat_char(c, k as nat),
{
    let ghost start = out@;
    for i in 0..k
        invariant
            out@ == start + repeat_char(c, i as nat),
    {
        out.push(c);
        assert(start + repeat_char(c, (i + 1) as nat) =~= (start + repeat_char(c, i as nat)).push(c));
    }
}

/// The decimal representation of `n` as a string.
pub fn u128_to_string(n: u128) -> (s: Vec<char>)
    ensures
        s@ == dec_digits(n as nat),
{
    let mut v: Vec<char> = Vec::new();
    push_dec(n, &mut v);
    assert(v@ =~= dec_digits(n as nat));
    v
}

} // verus!
