//! Human-readable byte counts and rates.

use vstd::prelude::*;
use crate::binary::{
    decode_f64, f64_from_bits, float_ge, float_ge_exec, float_gt, float_gt_exec, fmt_fixed,
    int_to_float, int_to_float_exec, push_float_fixed, scale_down, scale_down_exec, BinaryFloat,
};
use crate::decimal::{dec_digits, push_dec};
use crate::text::string_from_chars;

verus! {

pub const KILOBYTE: u64 = 1024;
pub const MEGABYTE: u64 = 1024 * 1024;
pub const GIGABYTE: u64 = 1024 * 1024 * 1024;
pub const TERABYTE: u64 = 1024 * 1024 * 1024 * 1024;

/// `bytes as f64`.
pub open spec fn as_f64(bytes: u64) -> BinaryFloat {
    int_to_float(bytes as nat, 53)
}

/// `v / 2^k` written with `p` decimals.
pub open spec fn scaled_text(v: BinaryFloat, k: nat, p: nat) -> Seq<char> {
    fmt_fixed(scale_down(v, k), p)
}

/// What `format_rate` writes for an `f64` rate in bytes per second.
pub open spec fn rate_text(v: BinaryFloat) -> Seq<char> {
    if float_ge(v, GIGABYTE as nat) {
        scaled_text(v, 30, 1) + seq!['G', 'b', '/', 's']
    } else if float_ge(v, MEGABYTE as nat) {
        scaled_text(v, 20, 1) + seq!['M', 'b', '/', 's']
    } else if float_ge(v, KILOBYTE as nat) {
        scaled_text(v, 10, 1) + seq!['K', 'b', '/', 's']
    } else {
        fmt_fixed(v, 0) + seq!['b', '/', 's']
    }
}

/// What `format_total` writes for a byte count.
pub open spec fn total_text(bytes: u64) -> Seq<char> {
    let b = as_f64(bytes);
    if float_ge(b, GIGABYTE as nat) {
        scaled_text(b, 30, 1) + seq!['G', 'B']
    } else if float_ge(b, MEGABYTE as nat) {
        scaled_text(b, 20, 1) + seq!['M', 'B']
    } else if float_ge(b, KILOBYTE as nat) {
        scaled_text(b, 10, 1) + seq!['K', 'B']
    } else {
        dec_digits(bytes as nat) + seq!['B']
    }
}

/// What `format_bytes` writes for a byte count.
pub open spec fn bytes_text(bytes: u64) -> Seq<char> {
    let b = as_f64(bytes);
    if float_ge(b, TERABYTE as nat) {
        scaled_text(b, 40, 2) + seq![' ', 'T', 'B']
    } else if float_ge(b, GIGABYTE as nat) {
        scaled_text(b, 30, 2) + seq![' ', 'G', 'B']
    } else if float_ge(b, MEGABYTE as nat) {
        scaled_text(b, 20, 2) + seq![' ', 'M', 'B']
    } else if float_ge(b, KILOBYTE as nat) {
        scaled_text(b, 10, 2) + seq![' ', 'K', 'B']
    } else {
        dec_digits(bytes as nat) + seq![' ', 'B']
    }
}

/// What `format_axis_label` writes for an `f64` axis value in bytes.
pub open spec fn axis_text(v: BinaryFloat) -> Seq<char> {
    if float_ge(v, GIGABYTE as nat) {
        scaled_text(v, 30, 1) + seq!['G']
    } else if float_ge(v, MEGABYTE as nat) {
        scaled_text(v, 20, 1) + seq!['M']
    } else if float_ge(v, KILOBYTE as nat) {
        scaled_text(v, 10, 1) + seq!['K']
    } else if float_gt(v, 0) {
        fmt_fixed(v, 0)
    } else {
        seq!['0']
    }
}

/// Appends `v / 2^k` written with `p` decimals; `v` is at least `2^k`.
fn push_scaled(v: BinaryFloat, k: u32, p: u32, out: &mut Vec<char>)
    requires
        k <= 40,
        p <= 9,
        v matches BinaryFloat::Finite { exponent, .. } ==> exponent >= -1074,
    ensures
        final(out)@ == old(out)@ + scaled_text(v, k as nat, p as nat),
{
    let s = scale_down_exec(v, k);
    push_float_fixed(s, p, out);
}

/// A rate in bytes per second, `bits` being the bit pattern of an `f64`:
/// `Gb/s`, `Mb/s` and `Kb/s` with one decimal from 1024 up, else whole bytes.
pub fn format_rate(bits: u64) -> (s: String)
    ensures
        s@ == rate_text(f64_from_bits(bits)),
{
    format_rate_of(decode_f64(bits))
}

/// A rate in bytes per second for an `f64` value, as `format_rate` writes it.
pub fn format_rate_of(v: BinaryFloat) -> (s: String)
    requires
        v matches BinaryFloat::Finite { exponent, .. } ==> exponent >= -1074,
    ensures
        s@ == rate_text(v),
{
    let mut out: Vec<char> = Vec::new();
    if float_ge_exec(v, GIGABYTE) {
        push_scaled(v, 30, 1, &mut out);
        out.push('G');
        out.push('b');
        out.push('/');
        out.push('s');
    } else if float_ge_exec(v, MEGABYTE) {
        push_scaled(v, 20, 1, &mut out);
        out.push('M');
        out.push('b');
        out.push('/');
        out.push('s');
    } else if float_ge_exec(v, KILOBYTE) {
        push_scaled(v, 10, 1, &mut out);
        out.push('K');
        out.push('b');
        out.push('/');
        out.push('s');
    } else {
        push_float_fixed(v, 0, &mut out);
        out.push('b');
        out.push('/');
        out.push('s');
    }
    assert(out@ =~= rate_text(v));
    string_from_chars(&out)
}

/// A byte total: `GB`, `MB` and `KB` with one decimal from 1024 up, else `B`.
pub fn format_total(bytes: u64) -> (s: String)
    ensures
        s@ == total_text(bytes),
{
    let b = int_to_float_exec(bytes, 53);
    let mut out: Vec<char> = Vec::new();
    if float_ge_exec(b, GIGABYTE) {
        push_scaled(b, 30, 1, &mut out);
        out.push('G');
        out.push('B');
    } else if float_ge_exec(b, MEGABYTE) {
        push_scaled(b, 20, 1, &mut out);
        out.push('M');
        out.push('B');
    } else if float_ge_exec(b, KILOBYTE) {
        push_scaled(b, 10, 1, &mut out);
        out.push('K');
        out.push('B');
    } else {
        push_dec(bytes as u128, &mut out);
        out.push('B');
    }
    assert(out@ =~= total_text(bytes));
    string_from_chars(&out)
}

/// A byte count with two decimals: `TB`, `GB`, `MB` and `KB` from 1024 up,
/// else ` B`.
pub fn format_bytes(bytes: u64) -> (s: String)
    ensures
        s@ == bytes_text(bytes),
{
    let b = int_to_float_exec(bytes, 53);
    let mut out: Vec<char> = Vec::new();
    if float_ge_exec(b, TERABYTE) {
        push_scaled(b, 40, 2, &mut out);
        out.push(' ');
        out.push('T');
        out.push('B');
    } else if float_ge_exec(b, GIGABYTE) {
        push_scaled(b, 30, 2, &mut out);
        out.push(' ');
        out.push('G');
        out.push('B');
    } else if float_ge_exec(b, MEGABYTE) {
        push_scaled(b, 20, 2, &mut out);
        out.push(' ');
        out.push('M');
        out.push('B');
    } else if float_ge_exec(b, KILOBYTE) {
        push_scaled(b, 10, 2, &mut out);
        out.push(' ');
        out.push('K');
        out.push('B');
    } else {
        push_dec(bytes as u128, &mut out);
        out.push(' ');
        out.push('B');
    }
    assert(out@ =~= bytes_text(bytes));
    string_from_chars(&out)
}

/// A chart axis label for an `f64` value: `G`, `M` and `K` with one
/// decimal from 1024 up, whole bytes above zero, else `0`.
pub fn format_axis_label_of(v: BinaryFloat) -> (s: String)
    requires
        v matches BinaryFloat::Finite { exponent, .. } ==> exponent >= -1074,
    ensures
        s@ == axis_text(v),
{
    let mut out: Vec<char> = Vec::new();
    if float_ge_exec(v, GIGABYTE) {
        push_scaled(v, 30, 1, &mut out);
        out.push('G');
    } else if float_ge_exec(v, MEGABYTE) {
        push_scaled(v, 20, 1, &mut out);
        out.push('M');
    } else if float_ge_exec(v, KILOBYTE) {
        push_scaled(v, 10, 1, &mut out);
        out.push('K');
    } else if float_gt_exec(v, 0) {
        push_float_fixed(v, 0, &mut out);
    } else {
        out.push('0');
    }
    assert(out@ =~= axis_text(v));
    string_from_chars(&out)
}

/// A chart axis label, `bits` being the bit pattern of an `f64`: `G`, `M`
/// and `K` with one decimal from 1024 up, whole bytes above zero, else `0`.
pub fn format_axis_label(bits: u64) -> (s: String)
    ensures
        s@ == axis_text(f64_from_bits(bits)),
{
    format_axis_label_of(decode_f64(bits))
}

} // verus!
