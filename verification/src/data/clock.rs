//! The clock in the dashboard's title.

use vstd::prelude::*;
use crate::decimal::{digit, digit_char};
use crate::text::string_from_chars;

verus! {

/// Two decimal digits of `n`, a leading zero below ten (`%H`, `%M`, `%S`).
pub open spec fn two_digits(n: nat) -> Seq<char> {
    seq![digit_char(n / 10), digit_char(n % 10)]
}

/// `"%H:%M:%S"` of a time of day.
pub open spec fn clock_text_spec(hour: u32, minute: u32, second: u32) -> Seq<char> {
    two_digits(hour as nat) + seq![':'] + two_digits(minute as nat) + seq![':'] + two_digits(
        second as nat,
    )
}

/// The title's clock before the first reading.
pub open spec fn placeholder_time_spec() -> Seq<char> {
    seq!['-', '-', ':', '-', '-', ':', '-', '-']
}

fn push_two_digits(n: u32, out: &mut Vec<char>)
    requires
        n < 100,
    ensures
        final(out)@ == old(out)@ + two_digits(n as nat),
{
    out.push(digit((n / 10) as u8));
    out.push(digit((n % 10) as u8));
}

/// A time of day as `"%H:%M:%S"` shows it: hours, minutes and seconds with
/// two digits each.
pub fn clock_text(hour: u32, minute: u32, second: u32) -> (s: String)
    requires
        hour < 100,
        minute < 100,
        second < 100,
    ensures
        s@ == clock_text_spec(hour, minute, second),
{
    let mut out: Vec<char> = Vec::new();
    push_two_digits(hour, &mut out);
    out.push(':');
    push_two_digits(minute, &mut out);
    out.push(':');
    push_two_digits(second, &mut out);
    assert(out@ =~= clock_text_spec(hour, minute, second));
    string_from_chars(&out)
}

/// The title's clock before the first reading: `"--:--:--"`.
pub fn placeholder_time() -> (s: String)
    ensures
        s@ == placeholder_time_spec(),
{
    let out: Vec<char> = vec!['-', '-', ':', '-', '-', ':', '-', '-'];
    assert(out@ =~= placeholder_time_spec());
    string_from_chars(&out)
}

} // verus!
