//! Binary floating-point values as exact integers: IEEE 754 decoding,
//! rounding of integers to a given precision, comparison with integers,
//! and fixed-precision decimal rendering with ties to even.

use vstd::prelude::*;
use crate::decimal::{
    dec_digits, fixed_point, lemma_pow10_add, lemma_pow10_mono, lemma_pow10_pos, lemma_pow2_add,
    lemma_pow2_mono, lemma_pow2_pos, low_digits, pow10, pow10_u128, pow2, push_fixed,
    push_repeat, repeat_char, digit_char,
};
use crate::bignum::push_big_dec;

verus! {

/// A binary floating-point value. A finite one is
/// `(-1)^negative * mantissa * 2^exponent`.
#[derive(Clone, Copy, Debug, PartialEq, Eq, Structural)]
pub enum BinaryFloat {
    NotANumber,
    Infinite { negative: bool },
    Finite { negative: bool, mantissa: u64, exponent: i32 },
}

/// The value of an `f64` with the given bit pattern.
pub open spec fn f64_from_bits(bits: u64) -> BinaryFloat {
    let negative = bits >= 0x8000_0000_0000_0000u64;
    let e = (bits / 0x10_0000_0000_0000u64) % 0x800;
    let f = bits % 0x10_0000_0000_0000u64;
    if e == 0x7ff {
        if f == 0 {
            BinaryFloat::Infinite { negative }
        } else {
            BinaryFloat::NotANumber
        }
    } else if e == 0 {
        BinaryFloat::Finite { negative, mantissa: f, exponent: -1074i32 }
    } else {
        BinaryFloat::Finite {
            negative,
            mantissa: (f + 0x10_0000_0000_0000u64) as u64,
            exponent: (e - 1075) as i32,
        }
    }
}

/// The value of an `f32` with the given bit pattern.
pub open spec fn f32_from_bits(bits: u32) -> BinaryFloat {
    let negative = bits >= 0x8000_0000u32;
    let e = (bits / 0x80_0000u32) % 0x100;
    let f = bits % 0x80_0000u32;
    if e == 0xff {
        if f == 0 {
            BinaryFloat::Infinite { negative }
        } else {
            BinaryFloat::NotANumber
        }
    } else if e == 0 {
        BinaryFloat::Finite { negative, mantissa: f as u64, exponent: -149i32 }
    } else {
        BinaryFloat::Finite {
            negative,
            mantissa: (f + 0x80_0000u32) as u64,
            exponent: (e - 150) as i32,
        }
    }
}

/// Decodes the bit pattern of an `f64`.
pub fn decode_f64(bits: u64) -> (v: BinaryFloat)
    ensures
        v == f64_from_bits(bits),
        v matches BinaryFloat::Finite { exponent, .. } ==> -1074 <= exponent <= 971,
{
    let negative = bits >= 0x8000_0000_0000_0000u64;
    let e = (bits / 0x10_0000_0000_0000u64) % 0x800;
    let f = bits % 0x10_0000_0000_0000u64;
    if e == 0x7ff {
        if f == 0 {
            BinaryFloat::Infinite { negative }
        } else {
            BinaryFloat::NotANumber
        }
    } else if e == 0 {
        BinaryFloat::Finite { negative, mantissa: f, exponent: -1074 }
    } else {
        BinaryFloat::Finite {
            negative,
            mantissa: f + 0x10_0000_0000_0000u64,
            exponent: e as i32 - 1075,
        }
    }
}

/// Decodes the bit pattern of an `f32`.
pub fn decode_f32(bits: u32) -> (v: BinaryFloat)
    ensures
        v == f32_from_bits(bits),
        v matches BinaryFloat::Finite { exponent, .. } ==> -149 <= exponent <= 104,
{
    let negative = bits >= 0x8000_0000u32;
    let e = (bits / 0x80_0000u32) % 0x100;
    let f = bits % 0x80_0000u32;
    if e == 0xff {
        if f == 0 {
            BinaryFloat::Infinite { negative }
        } else {
            BinaryFloat::NotANumber
        }
    } else if e == 0 {
        BinaryFloat::Finite { negative, mantissa: f as u64, exponent: -149i32 }
    } else {
        BinaryFloat::Finite {
            negative,
            mantissa: (f + 0x80_0000u32) as u64,
            exponent: e as i32 - 150,
        }
    }
}

/// `x / d` rounded to the nearest integer, ties to the even one.
pub open spec fn round_half_even(x: nat, d: nat) -> nat {
    let q = x / d;
    let r = x % d;
    if 2 * r > d || (2 * r == d && q % 2 == 1) {
        q + 1
    } else {
        q
    }
}

/// The number of low bits that `n` loses when it is held with `b`
/// significant bits.
pub open spec fn sig_shift(n: nat, b: nat) -> nat
    decreases n,
{
    if b == 0 || n == 0 || n < pow2(b) {
        0
    } else {
        1 + sig_shift(n / 2, b)
    }
}

/// `n` converted to a binary float with `b` significant bits, rounding to
/// nearest with ties to even (what `as f64` does for `b == 53`, and
/// `as f32` for `b == 24`).
pub open spec fn int_to_float(n: nat, b: nat) -> BinaryFloat {
    let s = sig_shift(n, b);
    BinaryFloat::Finite {
        negative: false,
        mantissa: round_half_even(n, pow2(s)) as u64,
        exponent: s as i32,
    }
}

/// `v / 2^k`, exact while the exponent stays in range.
pub open spec fn scale_down(v: BinaryFloat, k: nat) -> BinaryFloat {
    match v {
        BinaryFloat::Finite { negative, mantissa, exponent } => BinaryFloat::Finite {
            negative,
            mantissa,
            exponent: (exponent - k) as i32,
        },
        _ => v,
    }
}

/// `m * 2^e >= c`.
pub open spec fn mag_ge(m: nat, e: int, c: nat) -> bool {
    if e >= 0 {
        m * pow2(e as nat) >= c
    } else {
        m >= c * pow2((-e) as nat)
    }
}

/// `m * 2^e <= c`.
pub open spec fn mag_le(m: nat, e: int, c: nat) -> bool {
    if e >= 0 {
        m * pow2(e as nat) <= c
    } else {
        m <= c * pow2((-e) as nat)
    }
}

/// `v >= c` as floating-point comparison does it (false for NaN).
pub open spec fn float_ge(v: BinaryFloat, c: nat) -> bool {
    match v {
        BinaryFloat::NotANumber => false,
        BinaryFloat::Infinite { negative } => !negative,
        BinaryFloat::Finite { negative, mantissa, exponent } => if negative {
            mantissa == 0 && c == 0
        } else {
            mag_ge(mantissa as nat, exponent as int, c)
        },
    }
}

/// `v < c` as floating-point comparison does it (false for NaN).
pub open spec fn float_lt(v: BinaryFloat, c: nat) -> bool {
    match v {
        BinaryFloat::NotANumber => false,
        _ => !float_ge(v, c),
    }
}

/// `v > c` as floating-point comparison does it (false for NaN).
pub open spec fn float_gt(v: BinaryFloat, c: nat) -> bool {
    match v {
        BinaryFloat::NotANumber => false,
        BinaryFloat::Infinite { negative } => !negative,
        BinaryFloat::Finite { negative, mantissa, exponent } => !negative && !mag_le(
            mantissa as nat,
            exponent as int,
            c,
        ),
    }
}

/// `m * 2^e * 10^p`, rounded to an integer with ties to even.
pub open spec fn scaled_round(m: nat, e: int, p: nat) -> nat {
    if e >= 0 {
        m * pow2(e as nat) * pow10(p)
    } else {
        round_half_even(m * pow10(p), pow2((-e) as nat))
    }
}

/// A minus sign for negative values.
pub open spec fn sign_prefix(negative: bool) -> Seq<char> {
    if negative {
        seq!['-']
    } else {
        seq![]
    }
}

/// `v` written with `p` decimals, as `format!("{:.p$}", v)` writes it.
pub open spec fn fmt_fixed(v: BinaryFloat, p: nat) -> Seq<char> {
    match v {
        BinaryFloat::NotANumber => seq!['N', 'a', 'N'],
        BinaryFloat::Infinite { negative } => sign_prefix(negative) + seq!['i', 'n', 'f'],
        BinaryFloat::Finite { negative, mantissa, exponent } => sign_prefix(negative)
            + fixed_point(scaled_round(mantissa as nat, exponent as int, p), p),
    }
}

pub proof fn lemma_pow2_64()
    ensures
        pow2(64) == 0x1_0000_0000_0000_0000,
{
    reveal_with_fuel(pow2, 17);
    assert(pow2(16) == 0x1_0000);
    lemma_pow2_add(16, 16);
    assert(pow2(32) == 0x1_0000_0000);
    lemma_pow2_add(32, 32);
}

pub proof fn lemma_pow2_101()
    ensures
        pow2(101) == 0x20_0000_0000_0000_0000_0000_0000,
{
    lemma_pow2_64();
    reveal_with_fuel(pow2, 38);
    assert(pow2(37) == 0x20_0000_0000);
    lemma_pow2_add(64, 37);
}

pub proof fn lemma_pow10_9()
    ensures
        pow10(9) == 1_000_000_000,
{
    reveal_with_fuel(pow10, 10);
}

/// Two to the power `k`, as an exec value.
pub fn pow2_u128(k: u32) -> (r: u128)
    requires
        k <= 101,
    ensures
        r == pow2(k as nat),
{
    let mut r: u128 = 1;
    let mut i: u32 = 0;
    while i < k
        invariant
            i <= k <= 101,
            r == pow2(i as nat),
        decreases k - i,
    {
        proof {
            lemma_pow2_mono(i as nat + 1, 101);
            lemma_pow2_101();
        }
        r = r * 2;
        i = i + 1;
    }
    r
}

/// Rounds `x / d` to the nearest integer, ties to even.
fn div_round_half_even(x: u128, d: u128) -> (q: u128)
    requires
        d > 0,
        d <= 0x20_0000_0000_0000_0000_0000_0000,
    ensures
        q == round_half_even(x as nat, d as nat),
{
    let q = x / d;
    let r = x % d;
    if 2 * r > d || (2 * r == d && q % 2 == 1) {
        proof {
            assert(q < 0xffff_ffff_ffff_ffff_ffff_ffff_ffff_ffffu128) by (nonlinear_arith)
                requires
                    q == x / d,
                    d >= 2,
                    x <= 0xffff_ffff_ffff_ffff_ffff_ffff_ffff_ffffu128,
            ;
        }
        q + 1
    } else {
        q
    }
}

proof fn lemma_low_digits_zeros(x: nat, p: nat)
    ensures
        low_digits(x * pow10(p), p) == repeat_char('0', p),
    decreases p,
{
    if p > 0 {
        let p1 = (p - 1) as nat;
        let n = x * pow10(p);
        assert(n == (x * pow10(p1)) * 10) by (nonlinear_arith)
            requires
                n == x * pow10(p),
                pow10(p) == 10 * pow10(p1),
        ;
        assert(n / 10 == x * pow10(p1));
        assert(n % 10 == 0);
        lemma_low_digits_zeros(x, p1);
        assert(digit_char(0) == '0');
        assert(repeat_char('0', p) =~= repeat_char('0', p1).push('0'));
    } else {
        assert(repeat_char('0', 0) =~= Seq::<char>::empty());
    }
}

/// Appends `v` written with `p` decimals.
pub fn push_float_fixed(v: BinaryFloat, p: u32, out: &mut Vec<char>)
    requires
        p <= 9,
    ensures
        final(out)@ == old(out)@ + fmt_fixed(v, p as nat),
{
    match v {
        BinaryFloat::NotANumber => {
            out.push('N');
            out.push('a');
            out.push('N');
            assert(old(out)@ + fmt_fixed(v, p as nat) =~= out@);
        },
        BinaryFloat::Infinite { negative } => {
            if negative {
                out.push('-');
            }
            out.push('i');
            out.push('n');
            out.push('f');
            assert(old(out)@ + fmt_fixed(v, p as nat) =~= out@);
        },
        BinaryFloat::Finite { negative, mantissa, exponent } => {
            if negative {
                out.push('-');
            }
            let ghost mid = out@;
            assert(mid == old(out)@ + sign_prefix(negative));
            if exponent >= 0 {
                let e = exponent as u32;
                push_big_dec(mantissa, e, out);
                let ghost x = mantissa as nat * pow2(e as nat);
                proof {
                    lemma_pow10_pos(p as nat);
                    vstd::arithmetic::div_mod::lemma_div_by_multiple(x as int, pow10(p as nat) as int);
                    lemma_low_digits_zeros(x, p as nat);
                }
                if p > 0 {
                    out.push('.');
                    push_repeat('0', p as usize, out);
                    assert(fixed_point(x * pow10(p as nat), p as nat) =~= dec_digits(x) + seq!['.']
                        + repeat_char('0', p as nat));
                } else {
                    assert(p as nat == 0);
                    assert(pow10(p as nat) == 1);
                    assert(x * 1 == x);
                }
                assert(scaled_round(mantissa as nat, exponent as int, p as nat) == x * pow10(
                    p as nat,
                ));
                assert(old(out)@ + fmt_fixed(v, p as nat) =~= out@);
            } else {
                let ten_p = pow10_u128(p);
                proof {
                    lemma_pow10_mono(p as nat, 9);
                    lemma_pow10_9();
                    lemma_pow2_pos((-exponent) as nat);
                    assert(mantissa as u128 * ten_p <= 0xffff_ffff_ffff_ffffu128 * 1_000_000_000u128)
                        by (nonlinear_arith)
                        requires
                            ten_p <= 1_000_000_000u128,
                    ;
                }
                let x: u128 = mantissa as u128 * ten_p;
                let n: u128;
                if exponent < -100 {
                    n = 0;
                    proof {
                        let k = (-exponent) as nat;
                        lemma_pow2_mono(101, k);
                        lemma_pow2_101();
                        let d = pow2(k);
                        assert(2 * x < d);
                        vstd::arithmetic::div_mod::lemma_basic_div(x as int, d as int);
                        vstd::arithmetic::div_mod::lemma_small_mod(x as nat, d);
                        assert(round_half_even(x as nat, d) == 0);
                    }
                } else {
                    let k: u32 = (0 - exponent) as u32;
                    let d = pow2_u128(k);
                    proof {
                        lemma_pow2_mono(k as nat, 101);
                        lemma_pow2_101();
                    }
                    n = div_round_half_even(x, d);
                }
                assert(n == scaled_round(mantissa as nat, exponent as int, p as nat));
                push_fixed(n, p, out);
                assert(old(out)@ + fmt_fixed(v, p as nat) =~= out@);
            }
        },
    }
}


/// `n` converted to a binary float with `b` significant bits.
pub fn int_to_float_exec(n: u64, b: u32) -> (v: BinaryFloat)
    requires
        1 <= b <= 53,
    ensures
        v == int_to_float(n as nat, b as nat),
        v matches BinaryFloat::Finite { exponent, mantissa, .. } ==> 0 <= exponent <= 64
            && mantissa as nat <= pow2(b as nat),
{
    proof {
        lemma_pow2_mono(b as nat, 101);
        lemma_pow2_101();
        lemma_pow2_mono(b as nat, 53);
        lemma_pow2_mono(1, b as nat);
        reveal_with_fuel(pow2, 2);
    }
    let limit: u128 = pow2_u128(b);
    let mut t: u64 = n;
    let mut s: u32 = 0;
    proof {
        assert(pow2(0) == 1);
        assert(n as nat / 1 == n as nat);
    }
    while t as u128 >= limit
        invariant
            limit == pow2(b as nat),
            limit >= 2,
            1 <= b <= 53,
            s <= 64,
            t as nat == n as nat / pow2(s as nat),
            sig_shift(n as nat, b as nat) == s + sig_shift(t as nat, b as nat),
            pow2(s as nat) * (t as nat) <= n as nat,
        decreases t,
    {
        let ghost t0 = t as nat;
        proof {
            assert(sig_shift(t0, b as nat) == 1 + sig_shift(t0 / 2, b as nat));
            lemma_pow2_pos(s as nat);
            vstd::arithmetic::div_mod::lemma_div_denominator(n as int, pow2(s as nat) as int, 2);
            assert(pow2(s as nat + 1) == pow2(s as nat) * 2);
            assert(pow2(s as nat) * 1 <= pow2(s as nat) * t0) by (nonlinear_arith)
                requires
                    t0 >= 1,
            ;
            if s >= 63 {
                lemma_pow2_mono(63, s as nat);
                lemma_pow2_64();
                assert(pow2(63) == 0x8000_0000_0000_0000) by {
                    reveal_with_fuel(pow2, 2);
                    assert(pow2(64) == 2 * pow2(63));
                }
                assert(pow2(s as nat) * t0 >= pow2(s as nat) * 2) by (nonlinear_arith)
                    requires
                        t0 >= 2,
                ;
                assert(false);
            }
            assert(pow2(s as nat + 1) * (t0 / 2) <= n as nat) by (nonlinear_arith)
                requires
                    pow2(s as nat + 1) == pow2(s as nat) * 2,
                    pow2(s as nat) * t0 <= n as nat,
            ;
        }
        t = t / 2;
        s = s + 1;
    }
    proof {
        lemma_pow2_mono(s as nat, 101);
    }
    let d = pow2_u128(s);
    proof {
        lemma_pow2_pos(s as nat);
        assert(sig_shift(t as nat, b as nat) == 0);
    }
    let q = div_round_half_even(n as u128, d);
    proof {
        assert(q <= t as nat + 1);
    }
    BinaryFloat::Finite { negative: false, mantissa: q as u64, exponent: s as i32 }
}

/// `m * 2^e >= c`.
pub fn mag_ge_exec(m: u64, e: i32, c: u64) -> (r: bool)
    ensures
        r == mag_ge(m as nat, e as int, c as nat),
{
    proof {
        lemma_pow2_64();
    }
    if e >= 0 {
        if e >= 64 {
            proof {
                lemma_pow2_mono(64, e as nat);
                if m > 0 {
                    assert(m as nat * pow2(e as nat) >= pow2(e as nat)) by (nonlinear_arith)
                        requires
                            m >= 1,
                    ;
                } else {
                    assert(m as nat * pow2(e as nat) == 0) by (nonlinear_arith)
                        requires
                            m == 0,
                    ;
                }
            }
            m > 0 || c == 0
        } else {
            proof {
                lemma_pow2_mono(e as nat, 63);
                lemma_pow2_mono(63, 101);
                lemma_pow2_101();
                assert(m as nat * pow2(e as nat) <= 0xffff_ffff_ffff_ffff * pow2(63))
                    by (nonlinear_arith)
                    requires
                        m <= 0xffff_ffff_ffff_ffff,
                        pow2(e as nat) <= pow2(63),
                ;
                assert(pow2(63) == 0x8000_0000_0000_0000) by {
                    reveal_with_fuel(pow2, 2);
                    assert(pow2(64) == 2 * pow2(63));
                }
            }
            m as u128 * pow2_u128(e as u32) >= c as u128
        }
    } else if e < -63 {
        proof {
            let k = (-e) as nat;
            lemma_pow2_mono(64, k);
            if c > 0 {
                assert(c as nat * pow2(k) >= pow2(k)) by (nonlinear_arith)
                    requires
                        c >= 1,
                ;
            } else {
                assert(c as nat * pow2(k) == 0) by (nonlinear_arith)
                    requires
                        c == 0,
                ;
            }
        }
        c == 0
    } else {
        let k: u32 = (0 - e) as u32;
        proof {
            lemma_pow2_mono(k as nat, 63);
            lemma_pow2_mono(63, 101);
            lemma_pow2_101();
            assert(pow2(63) == 0x8000_0000_0000_0000) by {
                reveal_with_fuel(pow2, 2);
                assert(pow2(64) == 2 * pow2(63));
            }
            assert(c as nat * pow2(k as nat) <= 0xffff_ffff_ffff_ffff * pow2(63))
                by (nonlinear_arith)
                requires
                    c <= 0xffff_ffff_ffff_ffff,
                    pow2(k as nat) <= pow2(63),
            ;
        }
        m as u128 >= c as u128 * pow2_u128(k)
    }
}

/// `m * 2^e <= c`.
pub fn mag_le_exec(m: u64, e: i32, c: u64) -> (r: bool)
    ensures
        r == mag_le(m as nat, e as int, c as nat),
{
    proof {
        lemma_pow2_64();
    }
    if e >= 0 {
        if e >= 64 {
            proof {
                lemma_pow2_mono(64, e as nat);
                if m > 0 {
                    assert(m as nat * pow2(e as nat) >= pow2(e as nat)) by (nonlinear_arith)
                        requires
                            m >= 1,
                    ;
                } else {
                    assert(m as nat * pow2(e as nat) == 0) by (nonlinear_arith)
                        requires
                            m == 0,
                    ;
                }
            }
            m == 0
        } else {
            proof {
                lemma_pow2_mono(e as nat, 63);
                lemma_pow2_mono(63, 101);
                lemma_pow2_101();
                assert(pow2(63) == 0x8000_0000_0000_0000) by {
                    reveal_with_fuel(pow2, 2);
                    assert(pow2(64) == 2 * pow2(63));
                }
                assert(m as nat * pow2(e as nat) <= 0xffff_ffff_ffff_ffff * pow2(63))
                    by (nonlinear_arith)
                    requires
                        m <= 0xffff_ffff_ffff_ffff,
                        pow2(e as nat) <= pow2(63),
                ;
            }
            m as u128 * pow2_u128(e as u32) <= c as u128
        }
    } else if e < -63 {
        proof {
            let k = (-e) as nat;
            lemma_pow2_mono(64, k);
            if c > 0 {
                assert(c as nat * pow2(k) >= pow2(k)) by (nonlinear_arith)
                    requires
                        c >= 1,
                ;
            } else {
                assert(c as nat * pow2(k) == 0) by (nonlinear_arith)
                    requires
                        c == 0,
                ;
            }
        }
        c > 0 || m == 0
    } else {
        let k: u32 = (0 - e) as u32;
        proof {
            lemma_pow2_mono(k as nat, 63);
            lemma_pow2_mono(63, 101);
            lemma_pow2_101();
            assert(pow2(63) == 0x8000_0000_0000_0000) by {
                reveal_with_fuel(pow2, 2);
                assert(pow2(64) == 2 * pow2(63));
            }
            assert(c as nat * pow2(k as nat) <= 0xffff_ffff_ffff_ffff * pow2(63))
                by (nonlinear_arith)
                requires
                    c <= 0xffff_ffff_ffff_ffff,
                    pow2(k as nat) <= pow2(63),
            ;
        }
        m as u128 <= c as u128 * pow2_u128(k)
    }
}

/// `v >= c`.
pub fn float_ge_exec(v: BinaryFloat, c: u64) -> (r: bool)
    ensures
        r == float_ge(v, c as nat),
{
    match v {
        BinaryFloat::NotANumber => false,
        BinaryFloat::Infinite { negative } => !negative,
        BinaryFloat::Finite { negative, mantissa, exponent } => if negative {
            mantissa == 0 && c == 0
        } else {
            mag_ge_exec(mantissa, exponent, c)
        },
    }
}

/// `v < c`.
pub fn float_lt_exec(v: BinaryFloat, c: u64) -> (r: bool)
    ensures
        r == float_lt(v, c as nat),
{
    match v {
        BinaryFloat::NotANumber => false,
        _ => !float_ge_exec(v, c),
    }
}

/// `v > c`.
pub fn float_gt_exec(v: BinaryFloat, c: u64) -> (r: bool)
    ensures
        r == float_gt(v, c as nat),
{
    match v {
        BinaryFloat::NotANumber => false,
        BinaryFloat::Infinite { negative } => !negative,
        BinaryFloat::Finite { negative, mantissa, exponent } => !negative && !mag_le_exec(
            mantissa,
            exponent,
            c,
        ),
    }
}

/// `v / 2^k`.
pub fn scale_down_exec(v: BinaryFloat, k: u32) -> (r: BinaryFloat)
    requires
        k <= 64,
        v matches BinaryFloat::Finite { exponent, .. } ==> exponent >= -1074,
    ensures
        r == scale_down(v, k as nat),
{
    match v {
        BinaryFloat::Finite { negative, mantissa, exponent } => BinaryFloat::Finite {
            negative,
            mantissa,
            exponent: exponent - k as i32,
        },
        _ => v,
    }
}


/// The value of `v` times `2^149` (an integer for every `f32` and every
/// float converted from an integer), NaN counted as zero and the
/// infinities beyond every finite `f32`: the order in which the process
/// list sorts values.
pub open spec fn order_value(v: BinaryFloat) -> int {
    match v {
        BinaryFloat::NotANumber => 0,
        BinaryFloat::Infinite { negative } => if negative {
            -pow2(400)
        } else {
            pow2(400) as int
        },
        BinaryFloat::Finite { negative, mantissa, exponent } => {
            let mag = mantissa as nat * pow2((exponent + 149) as nat);
            if negative {
                -mag
            } else {
                mag as int
            }
        },
    }
}

/// The magnitude `order_value` gives the non-negative `f32` with bit
/// pattern `m` (`m <= 0x7f80_0000`, the last being infinity).
pub open spec fn f32_magnitude(m: nat) -> nat {
    if m >= 0x7f80_0000 {
        pow2(400)
    } else if m < 0x80_0000 {
        m
    } else {
        ((m % 0x80_0000) + 0x80_0000) * pow2((m / 0x80_0000 - 1) as nat)
    }
}

/// An integer that orders `f32` bit patterns as their values: the
/// magnitude bits, negated for negative values, zero for NaN.
pub open spec fn f32_key(bits: u32) -> int {
    if f32_from_bits(bits) is NotANumber {
        0
    } else if bits >= 0x8000_0000u32 {
        -((bits % 0x8000_0000u32) as int)
    } else {
        bits as int
    }
}

proof fn lemma_f32_magnitude_step(m: nat)
    requires
        m < 0x7f80_0000,
    ensures
        f32_magnitude(m) < f32_magnitude(m + 1),
{
    if m + 1 >= 0x7f80_0000 {
        let e = (m / 0x80_0000) as nat;
        assert(e == 254);
        assert(m % 0x80_0000 == 0x7f_ffff);
        lemma_pow2_pos(253);
        assert(f32_magnitude(m) == (0x7f_ffff + 0x80_0000) * pow2(253));
        assert(f32_magnitude(m) < 0x100_0000 * pow2(253)) by (nonlinear_arith)
            requires
                f32_magnitude(m) == (0x7f_ffff + 0x80_0000) * pow2(253),
                pow2(253) >= 1,
        ;
        lemma_pow2_add(24, 253);
        lemma_pow2_mono(277, 400);
        assert(pow2(24) == 0x100_0000) by {
            reveal_with_fuel(pow2, 25);
        }
        assert(f32_magnitude(m + 1) == pow2(400));
    } else if m + 1 < 0x80_0000 {
        assert(f32_magnitude(m) == m);
        assert(f32_magnitude(m + 1) == m + 1);
    } else if m + 1 == 0x80_0000 {
        assert(f32_magnitude(m) == m);
        assert(((m + 1) as nat / 0x80_0000) == 1);
        assert(((m + 1) as nat % 0x80_0000) == 0);
        assert(pow2(0) == 1);
        assert(f32_magnitude(m + 1) == 0x80_0000 * pow2(0));
    } else {
        let e = (m / 0x80_0000) as nat;
        let f = (m % 0x80_0000) as nat;
        let p = pow2((e - 1) as nat);
        lemma_pow2_pos((e - 1) as nat);
        assert(f32_magnitude(m) == (f + 0x80_0000) * p);
        if f < 0x7f_ffff {
            assert((m + 1) / 0x80_0000 == e);
            assert((m + 1) % 0x80_0000 == f + 1);
            assert(f32_magnitude(m + 1) == (f + 1 + 0x80_0000) * p);
            assert((f + 0x80_0000) * p < (f + 1 + 0x80_0000) * p) by (nonlinear_arith)
                requires
                    p >= 1,
            ;
        } else {
            assert((m + 1) / 0x80_0000 == e + 1);
            assert((m + 1) % 0x80_0000 == 0);
            assert(pow2(e) == 2 * p);
            assert(f32_magnitude(m + 1) == (0 + 0x80_0000) * pow2(e));
            assert((f + 0x80_0000) * p < (0 + 0x80_0000) * (2 * p)) by (nonlinear_arith)
                requires
                    p >= 1,
                    f == 0x7f_ffff,
            ;
        }
    }
}

/// `f32_magnitude` is strictly increasing.
pub proof fn lemma_f32_magnitude_mono(a: nat, b: nat)
    requires
        a < b <= 0x7f80_0000,
    ensures
        f32_magnitude(a) < f32_magnitude(b),
    decreases b - a,
{
    lemma_f32_magnitude_step(a);
    if a + 1 < b {
        lemma_f32_magnitude_mono(a + 1, b);
    }
}

/// The order value of an `f32` is its signed magnitude.
proof fn lemma_f32_order_value(bits: u32)
    ensures
        f32_from_bits(bits) !is NotANumber ==> order_value(f32_from_bits(bits)) == (if bits
            >= 0x8000_0000u32 {
            -(f32_magnitude((bits % 0x8000_0000u32) as nat) as int)
        } else {
            f32_magnitude(bits as nat) as int
        }),
        f32_from_bits(bits) !is NotANumber ==> (bits % 0x8000_0000u32) <= 0x7f80_0000,
{
    let m = (bits % 0x8000_0000u32) as nat;
    let e = (bits / 0x80_0000u32) % 0x100;
    let f = bits % 0x80_0000u32;
    assert(e as nat == m / 0x80_0000);
    assert(f as nat == m % 0x80_0000);
    if bits < 0x8000_0000u32 {
        assert(m == bits);
    }
    let v = f32_from_bits(bits);
    if e == 0xff {
        assert(m >= 0x7f80_0000);
        if f == 0 {
            assert(m == 0x7f80_0000);
            assert(f32_magnitude(m) == pow2(400));
        }
    } else if e == 0 {
        assert(m < 0x80_0000);
        assert(pow2(0) == 1);
        assert(v == BinaryFloat::Finite {
            negative: bits >= 0x8000_0000u32,
            mantissa: f as u64,
            exponent: -149i32,
        });
        assert(((-149i32) + 149) as nat == 0);
        assert((f as u64) as nat * pow2(0) == f as nat);
        assert(order_value(v) == (if bits >= 0x8000_0000u32 { -(f as int) } else { f as int }));
        assert(f32_magnitude(m) == m);
    } else {
        assert(0x80_0000 <= m < 0x7f80_0000);
        let ex = (e - 150) as i32;
        assert(v == BinaryFloat::Finite {
            negative: bits >= 0x8000_0000u32,
            mantissa: (f + 0x80_0000u32) as u64,
            exponent: ex,
        });
        assert((ex + 149) as nat == (m / 0x80_0000 - 1) as nat);
        assert(f32_magnitude(m) == ((m % 0x80_0000) + 0x80_0000) * pow2((m / 0x80_0000 - 1) as nat));
    }
}

/// `f32_key` orders bit patterns as `order_value` orders their values.
pub proof fn lemma_f32_key_order(a: u32, b: u32)
    ensures
        (f32_key(a) < f32_key(b)) == (order_value(f32_from_bits(a)) < order_value(
            f32_from_bits(b),
        )),
        (f32_key(a) == f32_key(b)) == (order_value(f32_from_bits(a)) == order_value(
            f32_from_bits(b),
        )),
{
    lemma_f32_order_value(a);
    lemma_f32_order_value(b);
    let ma = (a % 0x8000_0000u32) as nat;
    let mb = (b % 0x8000_0000u32) as nat;
    if ma < mb && mb <= 0x7f80_0000 {
        lemma_f32_magnitude_mono(ma, mb);
    }
    if mb < ma && ma <= 0x7f80_0000 {
        lemma_f32_magnitude_mono(mb, ma);
    }
    if ma > 0 && ma <= 0x7f80_0000 {
        lemma_f32_magnitude_mono(0, ma);
    }
    if mb > 0 && mb <= 0x7f80_0000 {
        lemma_f32_magnitude_mono(0, mb);
    }
    if a < 0x8000_0000u32 {
        assert(ma == a);
    }
    if b < 0x8000_0000u32 {
        assert(mb == b);
    }
}

/// The integer `f32_key` of a bit pattern.
pub fn f32_key_exec(bits: u32) -> (k: i64)
    ensures
        k == f32_key(bits),
{
    let v = decode_f32(bits);
    if v == BinaryFloat::NotANumber {
        0
    } else if bits >= 0x8000_0000u32 {
        -((bits % 0x8000_0000u32) as i64)
    } else {
        bits as i64
    }
}


/// The integer value of a float converted from an integer.
pub open spec fn float_int_value(v: BinaryFloat) -> int {
    match v {
        BinaryFloat::Finite { mantissa, exponent, .. } => (mantissa as nat * pow2(exponent as nat)) as int,
        _ => 0,
    }
}

/// A number below `2^k` loses at most `k` bits.
pub proof fn lemma_sig_shift_bound(n: nat, b: nat, k: nat)
    requires
        n < pow2(k),
        b >= 1,
    ensures
        sig_shift(n, b) <= k,
    decreases n,
{
    if !(b == 0 || n == 0 || n < pow2(b)) {
        if k == 0 {
            assert(pow2(0) == 1);
        } else {
            assert(pow2(k) == 2 * pow2((k - 1) as nat));
            lemma_sig_shift_bound(n / 2, b, (k - 1) as nat);
        }
    }
}

/// A 64-bit integer converted to a float has a non-negative exponent of
/// at most 64, and `order_value` is its value times `2^149`.
pub proof fn lemma_int_order_value(n: u64, b: nat)
    requires
        b >= 1,
    ensures
        int_to_float(n as nat, b) matches BinaryFloat::Finite { exponent, negative, .. } && 0
            <= exponent <= 64 && !negative,
        order_value(int_to_float(n as nat, b)) == float_int_value(int_to_float(n as nat, b))
            * pow2(149),
{
    lemma_pow2_64();
    lemma_sig_shift_bound(n as nat, b, 64);
    let s = sig_shift(n as nat, b);
    let v = int_to_float(n as nat, b);
    if let BinaryFloat::Finite { mantissa, exponent, .. } = v {
        assert(exponent as int == s);
        assert((exponent + 149) as nat == s + 149);
        lemma_pow2_add(s, 149);
        assert(mantissa as nat * pow2(s + 149) == mantissa as nat * pow2(s) * pow2(149))
            by (nonlinear_arith)
            requires
                pow2(s + 149) == pow2(s) * pow2(149),
        ;
    }
}

/// Rounding to nearest gives the quotient or one more.
proof fn lemma_round_bounds(x: nat, d: nat)
    requires
        d > 0,
    ensures
        x / d <= round_half_even(x, d) <= x / d + 1,
{
}

/// Dropping low bits keeps the top: a number of at least `b - 1` bits still
/// has at least that many once `sig_shift` bits are dropped.
proof fn lemma_shift_keeps_top(n: nat, b: nat)
    requires
        b >= 1,
        n >= pow2((b - 1) as nat),
    ensures
        n / pow2(sig_shift(n, b)) >= pow2((b - 1) as nat),
    decreases n,
{
    lemma_pow2_pos((b - 1) as nat);
    if n < pow2(b) {
        assert(sig_shift(n, b) == 0);
        assert(pow2(0) == 1);
    } else {
        assert(pow2(b) == 2 * pow2((b - 1) as nat));
        assert(sig_shift(n, b) == 1 + sig_shift(n / 2, b));
        lemma_shift_keeps_top(n / 2, b);
        let s1 = sig_shift(n / 2, b);
        lemma_pow2_pos(s1);
        vstd::arithmetic::div_mod::lemma_div_denominator(n as int, 2, pow2(s1) as int);
        assert(pow2(s1 + 1) == 2 * pow2(s1));
    }
}

/// A 64-bit count converted to `f64` compares with `2^k` (for `k` up to 52)
/// as the count itself does: the conversion's rounding never crosses it.
pub proof fn lemma_as_f64_ge_pow2(n: u64, k: nat)
    requires
        k <= 52,
    ensures
        float_ge(int_to_float(n as nat, 53), pow2(k)) == (n >= pow2(k)),
{
    lemma_pow2_64();
    lemma_pow2_mono(k, 52);
    lemma_pow2_mono(52, 53);
    lemma_pow2_mono(53, 64);
    let s = sig_shift(n as nat, 53);
    lemma_sig_shift_bound(n as nat, 53, 64);
    lemma_pow2_pos(s);
    let r = round_half_even(n as nat, pow2(s));
    lemma_round_bounds(n as nat, pow2(s));
    if n < pow2(53) {
        assert(s == 0);
        assert(pow2(0) == 1);
        assert((n as nat) / 1 == n as nat && (n as nat) % 1 == 0) by (nonlinear_arith);
        assert(r == n);
        assert(r * pow2(s) == n);
    } else {
        lemma_pow2_pos(53);
        assert(s == 1 + sig_shift((n as nat) / 2, 53));
        lemma_pow2_mono(1, s);
        assert(pow2(1) == 2) by {
            reveal_with_fuel(pow2, 2);
        }
        vstd::arithmetic::div_mod::lemma_div_is_ordered_by_denominator(n as int, 2, pow2(s) as int);
        assert(r < 0x1_0000_0000_0000_0000);
        lemma_shift_keeps_top(n as nat, 53);
        assert(r * pow2(s) >= pow2(52)) by (nonlinear_arith)
            requires
                r >= pow2(52),
                pow2(s) >= 1,
        ;
    }
    assert(r as u64 as nat == r);
}

} // verus!
