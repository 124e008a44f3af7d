//! Memory and swap usage lines.

use vstd::prelude::*;
use crate::binary::push_float_fixed;
use crate::binary::{int_to_float_exec, scale_down_exec};
use crate::text::{push_str, string_from_chars};
use crate::tools::units::{as_f64, scaled_text};

verus! {

/// Memory information; the byte counts come from the system.
pub struct MemInfo;

/// `bytes as f64 / GIGABYTE` written with two decimals.
pub open spec fn gib_text(bytes: u64) -> Seq<char> {
    scaled_text(as_f64(bytes), 30, 2)
}

/// `"Total: {:.2} GB    Total Swap: {:.2} GB"` of the two byte counts in GiB.
pub open spec fn total_line_text(total: u64, total_swap: u64) -> Seq<char> {
    "Total: "@ + gib_text(total) + " GB    Total Swap: "@ + gib_text(total_swap) + " GB"@
}

/// `"Used: {:.2} GB    Used Swap: ({:.2} GB)"` of the two byte counts in GiB.
pub open spec fn used_line_text(used: u64, used_swap: u64) -> Seq<char> {
    "Used: "@ + gib_text(used) + " GB    Used Swap: ("@ + gib_text(used_swap) + " GB)"@
}

/// Appends `bytes` in GiB with two decimals.
fn push_gib(bytes: u64, out: &mut Vec<char>)
    ensures
        final(out)@ == old(out)@ + gib_text(bytes),
{
    let b = int_to_float_exec(bytes, 53);
    push_float_fixed(scale_down_exec(b, 30), 2, out);
}

impl MemInfo {
    /// `"{:.2} GB"` of a byte count in GiB.
    pub fn gigabytes(bytes: u64) -> (s: String)
        ensures
            s@ == gib_text(bytes) + " GB"@,
    {
        let mut out: Vec<char> = Vec::new();
        push_gib(bytes, &mut out);
        push_str(&mut out, " GB");
        string_from_chars(&out)
    }

    /// The first memory line: total memory and total swap.
    pub fn total_line(total: u64, total_swap: u64) -> (s: String)
        ensures
            s@ == total_line_text(total, total_swap),
    {
        let mut out: Vec<char> = Vec::new();
        push_str(&mut out, "Total: ");
        push_gib(total, &mut out);
        push_str(&mut out, " GB    Total Swap: ");
        push_gib(total_swap, &mut out);
        push_str(&mut out, " GB");
        assert(out@ =~= total_line_text(total, total_swap));
        string_from_chars(&out)
    }

    /// The second memory line: used memory and used swap.
    pub fn used_line(used: u64, used_swap: u64) -> (s: String)
        ensures
            s@ == used_line_text(used, used_swap),
    {
        let mut out: Vec<char> = Vec::new();
        push_str(&mut out, "Used: ");
        push_gib(used, &mut out);
        push_str(&mut out, " GB    Used Swap: (");
        push_gib(used_swap, &mut out);
        push_str(&mut out, " GB)");
        assert(out@ =~= used_line_text(used, used_swap));
        string_from_chars(&out)
    }

    /// The memory panel: always the total line, then the used line.
    pub fn display_memory(total: u64, used: u64, total_swap: u64, used_swap: u64) -> (r: Option<
        Vec<String>,
    >)
        ensures
            r matches Some(lines) && lines.len() == 2 && lines[0]@ == total_line_text(
                total,
                total_swap,
            ) && lines[1]@ == used_line_text(used, used_swap),
    {
        let mut info: Vec<String> = Vec::new();
        info.push(Self::total_line(total, total_swap));
        info.push(Self::used_line(used, used_swap));
        Some(info)
    }
}

} // verus!
