//! System information in one place: cores, frequency, caches, model and
//! memory, formatted as `CpuInfo` and `MemInfo` format them.

use vstd::prelude::*;
use crate::data::cpu::{cache_kb_text, cache_result, core_line_text, opt_chars, CpuInfo};
use crate::data::lscpu::{any_line_l3, l3_field_size_from};
use crate::text::{str_chars, string_from_chars};
use crate::data::mem::{total_line_text, used_line_text, MemInfo};

verus! {

/// System information; the values come from the system.
pub struct SystemInfo;

impl SystemInfo {
    /// The lines of the core panel, as `CpuInfo::display_cores`.
    pub fn display_cores(usages: &Vec<u32>) -> (r: Option<Vec<String>>)
        ensures
            usages.len() == 0 ==> r is None,
            usages.len() > 0 ==> (r matches Some(lines) && lines.len() == usages.len() + 1
                && lines[0]@ == Seq::<char>::empty() && forall|i: int|
                0 <= i < usages.len() ==> #[trigger] lines[i + 1]@ == core_line_text(
                    i as nat,
                    usages[i],
                )),
    {
        CpuInfo::display_cores(usages)
    }

    /// The frequency of the first core, if there is one.
    pub fn display_cpu_frequency(frequencies: &Vec<u64>) -> (r: Option<u64>)
        ensures
            frequencies.len() == 0 ==> r is None,
            frequencies.len() > 0 ==> r == Some(frequencies[0]),
    {
        CpuInfo::display_cpu_frequency(frequencies)
    }

    /// A cache size in kilobytes: `"{bytes / 1024} KB"`.
    pub fn cache_kb(bytes: usize) -> (s: String)
        ensures
            s@ == cache_kb_text(bytes as nat),
    {
        CpuInfo::cache_kb(bytes)
    }

    /// The L3 cache size that `lscpu` reports: the first two words of the
    /// field after `L3 cache:` (up to the next `:`), on the first line that
    /// starts with that label and has a word there.
    pub fn lscpu_l3_cache(stdout: &str) -> (r: Option<String>)
        ensures
            opt_chars(r) == l3_field_size_from(stdout@, 0),
    {
        let chars = str_chars(stdout);
        match any_line_l3(&chars) {
            Some(v) => Some(string_from_chars(&v)),
            None => None,
        }
    }

    /// The cache entries, as `CpuInfo::cache_entries`.
    pub fn cache_entries(l1: Option<usize>, l2: Option<usize>, l3: Option<String>) -> (r: Option<
        Vec<(String, String)>,
    >)
        ensures
            cache_result(l1, l2, opt_chars(l3), r),
    {
        CpuInfo::cache_entries(l1, l2, l3)
    }

    /// The cache entries of this machine, as `CpuInfo::display_cpu_cache`.
    pub fn display_cpu_cache(l3: Option<String>) -> (r: Option<Vec<(String, String)>>)
        ensures
            exists|l1: Option<usize>, l2: Option<usize>| cache_result(l1, l2, opt_chars(l3), r),
            l3 is Some ==> r is Some,
    {
        CpuInfo::display_cpu_cache(l3)
    }

    /// The model entries, as `CpuInfo::display_cpu_model`.
    pub fn display_cpu_model(brands: &Vec<String>) -> (r: Option<Vec<(String, String)>>)
        ensures
            brands.len() == 0 ==> r is None,
            brands.len() > 0 ==> (r matches Some(m) && m.len() == 1 && m[0].0@ == "Brand"@
                && m[0].1@ == brands[0]@),
    {
        CpuInfo::display_cpu_model(brands)
    }

    /// The memory panel, as `MemInfo::display_memory`.
    pub fn display_memory(total: u64, used: u64, total_swap: u64, used_swap: u64) -> (r: Option<
        Vec<String>,
    >)
        ensures
            r matches Some(lines) && lines.len() == 2 && lines[0]@ == total_line_text(
                total,
                total_swap,
            ) && lines[1]@ == used_line_text(used, used_swap),
    {
        MemInfo::display_memory(total, used, total_swap, used_swap)
    }
}

} // verus!
