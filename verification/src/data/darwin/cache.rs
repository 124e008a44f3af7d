//! CPU cache sizes per performance level, as macOS reports them.

use vstd::prelude::*;
use crate::decimal::{dec_digits, push_dec};
use crate::text::{push_str, string_from_chars};

verus! {

/// Cache information for machines with performance and efficiency cores.
pub struct CacheMac;

/// The cache sizes of one performance level, in bytes, where known.
pub struct PerfLevelCaches {
    pub l1i: Option<usize>,
    pub l1d: Option<usize>,
    pub l2: Option<usize>,
}

/// `"{label}: {size / divisor} {unit}"`, or nothing for an unknown size.
pub open spec fn level_entry(label: Seq<char>, size: Option<usize>, divisor: nat, unit: Seq<char>) -> Seq<
    Seq<char>,
> {
    match size {
        Some(n) => seq![label + ": "@ + dec_digits(n as nat / divisor) + " "@ + unit],
        None => seq![],
    }
}

/// The entries `cache_levels` lists, in order.
pub open spec fn levels_text(p: PerfLevelCaches, e: PerfLevelCaches) -> Seq<Seq<char>> {
    level_entry("P-L1i"@, p.l1i, 1024, "KB"@) + level_entry("P-L1d"@, p.l1d, 1024, "KB"@)
        + level_entry("P-L2"@, p.l2, 1048576, "MB"@) + level_entry("E-L1i"@, e.l1i, 1024, "KB"@)
        + level_entry("E-L1d"@, e.l1d, 1024, "KB"@) + level_entry("E-L2"@, e.l2, 1048576, "MB"@)
}

/// The views of a list of strings.
pub open spec fn views(v: Seq<String>) -> Seq<Seq<char>> {
    v.map_values(|s: String| s@)
}

fn push_entry(
    levels: &mut Vec<String>,
    label: &str,
    size: Option<usize>,
    divisor: usize,
    unit: &str,
)
    requires
        divisor > 0,
    ensures
        views(final(levels)@) == views(old(levels)@) + level_entry(
            label@,
            size,
            divisor as nat,
            unit@,
        ),
{
    let ghost before = views(levels@);
    if let Some(n) = size {
        let mut out: Vec<char> = Vec::new();
        push_str(&mut out, label);
        push_str(&mut out, ": ");
        push_dec((n / divisor) as u128, &mut out);
        push_str(&mut out, " ");
        push_str(&mut out, unit);
        let s = string_from_chars(&out);
        levels.push(s);
        assert(views(levels@) =~= before + level_entry(label@, size, divisor as nat, unit@));
    } else {
        assert(views(levels@) =~= before + level_entry(label@, size, divisor as nat, unit@));
    }
}

impl CacheMac {
    /// The known cache sizes: L1 instruction and data caches in KB and the
    /// L2 cache in MB, performance cores first, then efficiency cores.
    pub fn cache_levels(p: PerfLevelCaches, e: PerfLevelCaches) -> (levels: Vec<String>)
        ensures
            views(levels@) == levels_text(p, e),
    {
        let mut levels: Vec<String> = Vec::new();
        assert(views(levels@) =~= Seq::<Seq<char>>::empty());
        push_entry(&mut levels, "P-L1i", p.l1i, 1024, "KB");
        push_entry(&mut levels, "P-L1d", p.l1d, 1024, "KB");
        push_entry(&mut levels, "P-L2", p.l2, 1048576, "MB");
        push_entry(&mut levels, "E-L1i", e.l1i, 1024, "KB");
        push_entry(&mut levels, "E-L1d", e.l1d, 1024, "KB");
        push_entry(&mut levels, "E-L2", e.l2, 1048576, "MB");
        assert(views(levels@) =~= levels_text(p, e));
        levels
    }
}

} // verus!
