//! The two-line network summary: current rate and total per direction.

use vstd::prelude::*;
use crate::binary::{
    fmt_fixed, int_to_float, int_to_float_exec, lemma_as_f64_ge_pow2, push_float_fixed,
    round_half_even, scale_down_exec, sig_shift, BinaryFloat,
};
use crate::decimal::{
    dec_digits, lemma_pow2_mono, pad_right, pow10, pow2, push_dec, push_repeat,
};
use crate::text::{push_str, str_chars, string_from_chars};
use crate::tools::units::{as_f64, rate_text, scaled_text, total_text};

verus! {

/// Received and transmitted bytes: the current rate and the totals.
pub struct NetworkChart {
    pub curr_rx: u64,
    pub curr_tx: u64,
    pub total_rx: u64,
    pub total_tx: u64,
}

/// What `NetworkChart::format_rate` writes for a byte count.
pub open spec fn chart_rate_text(bytes: u64) -> Seq<char> {
    if bytes >= 1_073_741_824 {
        scaled_text(as_f64(bytes), 30, 1) + "Gb/s"@
    } else if bytes >= 1_048_576 {
        scaled_text(as_f64(bytes), 20, 1) + "Mb/s"@
    } else if bytes >= 1024 {
        scaled_text(as_f64(bytes), 10, 1) + "Kb/s"@
    } else {
        dec_digits(bytes as nat) + "b/s"@
    }
}

/// What `NetworkChart::format_total` writes for a byte count.
pub open spec fn chart_total_text(bytes: u64) -> Seq<char> {
    if bytes >= 1_073_741_824 {
        scaled_text(as_f64(bytes), 30, 1) + "GB"@
    } else if bytes >= 1_048_576 {
        scaled_text(as_f64(bytes), 20, 1) + "MB"@
    } else if bytes >= 1024 {
        scaled_text(as_f64(bytes), 10, 1) + "KB"@
    } else {
        dec_digits(bytes as nat) + "B"@
    }
}

/// A line of the summary: `"{first}X: "`, the rate left-aligned in twelve
/// cells, `"All: "` and the total.
pub open spec fn chart_line_text(first: char, rate: u64, total: u64) -> Seq<char> {
    seq![first, 'X', ':', ' '] + pad_right(chart_rate_text(rate), 12) + seq!['A', 'l', 'l', ':', ' ']
        + chart_total_text(total)
}

/// Appends `bytes / 2^k` with one decimal.
fn push_scaled_bytes(bytes: u64, k: u32, out: &mut Vec<char>)
    requires
        k <= 40,
    ensures
        final(out)@ == old(out)@ + scaled_text(as_f64(bytes), k as nat, 1),
{
    let b = int_to_float_exec(bytes, 53);
    push_float_fixed(scale_down_exec(b, k), 1, out);
}

impl NetworkChart {
    /// All counts zero.
    pub fn new() -> (c: Self)
        ensures
            c.curr_rx == 0 && c.curr_tx == 0 && c.total_rx == 0 && c.total_tx == 0,
    {
        NetworkChart { curr_rx: 0, curr_tx: 0, total_rx: 0, total_tx: 0 }
    }

    /// Replaces the four counts.
    pub fn update(&mut self, curr_rx: u64, curr_tx: u64, total_rx: u64, total_tx: u64)
        ensures
            final(self).curr_rx == curr_rx,
            final(self).curr_tx == curr_tx,
            final(self).total_rx == total_rx,
            final(self).total_tx == total_tx,
    {
        self.curr_rx = curr_rx;
        self.curr_tx = curr_tx;
        self.total_rx = total_rx;
        self.total_tx = total_tx;
    }

    /// A rate: `Gb/s`, `Mb/s`, `Kb/s` with one decimal from 1024 up, else
    /// whole bytes.
    pub fn format_rate(bytes: u64) -> (s: String)
        ensures
            s@ == chart_rate_text(bytes),
    {
        let mut out: Vec<char> = Vec::new();
        if bytes >= 1_073_741_824 {
            push_scaled_bytes(bytes, 30, &mut out);
            push_str(&mut out, "Gb/s");
        } else if bytes >= 1_048_576 {
            push_scaled_bytes(bytes, 20, &mut out);
            push_str(&mut out, "Mb/s");
        } else if bytes >= 1024 {
            push_scaled_bytes(bytes, 10, &mut out);
            push_str(&mut out, "Kb/s");
        } else {
            push_dec(bytes as u128, &mut out);
            push_str(&mut out, "b/s");
        }
        string_from_chars(&out)
    }

    /// A total: `GB`, `MB`, `KB` with one decimal from 1024 up, else `B`.
    pub fn format_total(bytes: u64) -> (s: String)
        ensures
            s@ == chart_total_text(bytes),
    {
        let mut out: Vec<char> = Vec::new();
        if bytes >= 1_073_741_824 {
            push_scaled_bytes(bytes, 30, &mut out);
            push_str(&mut out, "GB");
        } else if bytes >= 1_048_576 {
            push_scaled_bytes(bytes, 20, &mut out);
            push_str(&mut out, "MB");
        } else if bytes >= 1024 {
            push_scaled_bytes(bytes, 10, &mut out);
            push_str(&mut out, "KB");
        } else {
            push_dec(bytes as u128, &mut out);
            push_str(&mut out, "B");
        }
        string_from_chars(&out)
    }
    /// The two lines of the summary: received, then transmitted.
    pub fn lines(&self) -> (v: (String, String))
        ensures
            v.0@ == chart_line_text('R', self.curr_rx, self.total_rx),
            v.1@ == chart_line_text('T', self.curr_tx, self.total_tx),
    {
        (Self::line('R', self.curr_rx, self.total_rx), Self::line('T', self.curr_tx, self.total_tx))
    }

    fn line(first: char, rate: u64, total: u64) -> (s: String)
        ensures
            s@ == chart_line_text(first, rate, total),
    {
        let mut out: Vec<char> = Vec::new();
        out.push(first);
        out.push('X');
        out.push(':');
        out.push(' ');
        let r = Self::format_rate(rate);
        let rc = str_chars(r.as_str());
        let ghost before = out@;
        push_str(&mut out, r.as_str());
        if rc.len() < 12 {
            push_repeat(' ', 12 - rc.len(), &mut out);
        }
        assert(out@ =~= before + pad_right(chart_rate_text(rate), 12));
        out.push('A');
        out.push('l');
        out.push('l');
        out.push(':');
        out.push(' ');
        let t = Self::format_total(total);
        push_str(&mut out, t.as_str());
        assert(out@ =~= chart_line_text(first, rate, total));
        string_from_chars(&out)
    }
}

proof fn lemma_unit_powers()
    ensures
        pow2(10) == 1024,
        pow2(20) == 1_048_576,
        pow2(30) == 1_073_741_824,
{
    reveal_with_fuel(pow2, 31);
}

/// A count below 1024 written as an `f64` with no decimals is its digits.
proof fn lemma_small_count_text(bytes: u64)
    requires
        bytes < 1024,
    ensures
        fmt_fixed(int_to_float(bytes as nat, 53), 0) == dec_digits(bytes as nat),
{
    let n = bytes as nat;
    lemma_unit_powers();
    lemma_pow2_mono(10, 53);
    assert(sig_shift(n, 53) == 0);
    assert(pow2(0) == 1);
    assert(pow10(0) == 1);
    assert(n / 1 == n && n % 1 == 0) by (nonlinear_arith);
    assert(round_half_even(n, 1) == n);
    let v = int_to_float(n, 53);
    assert(v == BinaryFloat::Finite { negative: false, mantissa: bytes, exponent: 0 });
    assert(n * pow2(0) * pow10(0) == n);
    assert(fmt_fixed(v, 0) =~= dec_digits(n));
}

/// The summary's totals read as the units module writes them:
/// `NetworkChart::format_total` and `format_total` give the same text for
/// every count.
pub proof fn lemma_chart_total_is_total(bytes: u64)
    ensures
        chart_total_text(bytes) == total_text(bytes),
{
    lemma_unit_powers();
    lemma_as_f64_ge_pow2(bytes, 30);
    lemma_as_f64_ge_pow2(bytes, 20);
    lemma_as_f64_ge_pow2(bytes, 10);
    reveal_strlit("GB");
    reveal_strlit("MB");
    reveal_strlit("KB");
    reveal_strlit("B");
}

/// The summary's rates read as the units module writes them:
/// `NetworkChart::format_rate` of a count gives the text `format_rate`
/// gives for that count as an `f64`.
pub proof fn lemma_chart_rate_is_rate(bytes: u64)
    ensures
        chart_rate_text(bytes) == rate_text(as_f64(bytes)),
{
    lemma_unit_powers();
    lemma_as_f64_ge_pow2(bytes, 30);
    lemma_as_f64_ge_pow2(bytes, 20);
    lemma_as_f64_ge_pow2(bytes, 10);
    reveal_strlit("Gb/s");
    reveal_strlit("Mb/s");
    reveal_strlit("Kb/s");
    reveal_strlit("b/s");
    if bytes < 1024 {
        lemma_small_count_text(bytes);
    }
}

} // verus!
