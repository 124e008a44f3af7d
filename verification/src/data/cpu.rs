//! CPU facts as the monitor shows them: per-core usage lines, the model
//! and the cache sizes.

use vstd::prelude::*;
use crate::binary::{decode_f32, f32_from_bits, fmt_fixed, push_float_fixed};
use crate::decimal::{dec_digits, push_dec};
use crate::text::{push_str, str_chars, string_from_chars};
use crate::data::lscpu::{first_line_l3, l3_first_line_size};

verus! {

/// CPU information; the values come from the system, this type formats them.
pub struct CpuInfo;

/// `"Core {i}: {usage:.1}%"` for an `f32` usage with bit pattern `bits`.
pub open spec fn core_line_text(i: nat, bits: u32) -> Seq<char> {
    seq!['C', 'o', 'r', 'e', ' '] + dec_digits(i) + seq![':', ' '] + fmt_fixed(
        f32_from_bits(bits),
        1,
    ) + seq!['%']
}

/// `"{bytes / 1024} KB"`.
pub open spec fn cache_kb_text(bytes: nat) -> Seq<char> {
    dec_digits(bytes / 1024) + seq![' ', 'K', 'B']
}

impl CpuInfo {
    /// The line of one core: `Core {index}: {usage:.1}%`, `usage_bits`
    /// being the bit pattern of the `f32` usage.
    pub fn core_line(index: usize, usage_bits: u32) -> (s: String)
        ensures
            s@ == core_line_text(index as nat, usage_bits),
    {
        let mut out: Vec<char> = Vec::new();
        out.push('C');
        out.push('o');
        out.push('r');
        out.push('e');
        out.push(' ');
        push_dec(index as u128, &mut out);
        out.push(':');
        out.push(' ');
        push_float_fixed(decode_f32(usage_bits), 1, &mut out);
        out.push('%');
        assert(out@ =~= core_line_text(index as nat, usage_bits));
        string_from_chars(&out)
    }

    /// The lines of the core panel: `None` without cores, else an empty
    /// line followed by one line per core, in order.
    pub fn display_cores(usages: &Vec<u32>) -> (r: Option<Vec<String>>)
        ensures
            usages.len() == 0 ==> r is None,
            usages.len() > 0 ==> (r matches Some(lines) && lines.len() == usages.len() + 1
                && lines[0]@ == Seq::<char>::empty() && forall|i: int|
                0 <= i < usages.len() ==> #[trigger] lines[i + 1]@ == core_line_text(
                    i as nat,
                    usages[i],
                )),
    {
        if usages.len() == 0 {
            return None;
        }
        let mut cores: Vec<String> = Vec::new();
        cores.push(String::new());
        for i in 0..usages.len()
            invariant
                cores.len() == i + 1,
                cores[0]@ == Seq::<char>::empty(),
                forall|j: int| 0 <= j < i ==> #[trigger] cores[j + 1]@ == core_line_text(
                    j as nat,
                    usages[j],
                ),
        {
            cores.push(Self::core_line(i, usages[i]));
        }
        Some(cores)
    }

    /// The frequency of the first core, if there is one.
    pub fn display_cpu_frequency(frequencies: &Vec<u64>) -> (r: Option<u64>)
        ensures
            frequencies.len() == 0 ==> r is None,
            frequencies.len() > 0 ==> r == Some(frequencies[0]),
    {
        if frequencies.len() == 0 {
            None
        } else {
            Some(frequencies[0])
        }
    }

    /// The model entries: `("Brand", brand of the first core)`, or `None`
    /// without cores.
    pub fn display_cpu_model(brands: &Vec<String>) -> (r: Option<Vec<(String, String)>>)
        ensures
            brands.len() == 0 ==> r is None,
            brands.len() > 0 ==> (r matches Some(m) && m.len() == 1 && m[0].0@ == "Brand"@
                && m[0].1@ == brands[0]@),
    {
        if brands.len() == 0 {
            return None;
        }
        let mut info: Vec<(String, String)> = Vec::new();
        info.push((String::from_str("Brand"), brands[0].clone()));
        Some(info)
    }

    /// A cache size in kilobytes: `"{bytes / 1024} KB"`.
    pub fn cache_kb(bytes: usize) -> (s: String)
        ensures
            s@ == cache_kb_text(bytes as nat),
    {
        let mut out: Vec<char> = Vec::new();
        push_dec((bytes / 1024) as u128, &mut out);
        out.push(' ');
        out.push('K');
        out.push('B');
        assert(out@ =~= cache_kb_text(bytes as nat));
        string_from_chars(&out)
    }

    /// The cache entries `L1`, `L2` (sizes in bytes, shown in KB) and `L3`
    /// (as `lscpu` wrote it), for those that are known; `None` when none is.
    pub fn cache_entries(l1: Option<usize>, l2: Option<usize>, l3: Option<String>) -> (r: Option<
        Vec<(String, String)>,
    >)
        ensures
            cache_result(l1, l2, opt_chars(l3), r),
    {
        proof {
            reveal_strlit("L1");
            reveal_strlit("L2");
            reveal_strlit("L3");
        }
        let ghost l3v = opt_chars(l3);
        let ghost want = cache_list(l1, l2, l3v);
        let mut info: Vec<(String, String)> = Vec::new();
        if let Some(b) = l1 {
            let name = String::from_str("L1");
            assert(name@ =~= seq!['L', '1']);
            info.push((name, Self::cache_kb(b)));
        }
        assert(pairs_view(info@) =~= cache_list(l1, None, None));
        if let Some(b) = l2 {
            let name = String::from_str("L2");
            assert(name@ =~= seq!['L', '2']);
            info.push((name, Self::cache_kb(b)));
        }
        assert(pairs_view(info@) =~= cache_list(l1, l2, None));
        if let Some(s) = l3 {
            let name = String::from_str("L3");
            assert(name@ =~= seq!['L', '3']);
            info.push((name, s));
        }
        assert(pairs_view(info@) =~= want);
        if info.len() == 0 {
            None
        } else {
            Some(info)
        }
    }

    /// The cache entries of this machine: `L1` and `L2` as the processor
    /// reports them, `L3` as given (read from `lscpu`). Whatever the
    /// processor reports, the entries are those `cache_entries` makes of it.
    pub fn display_cpu_cache(l3: Option<String>) -> (r: Option<Vec<(String, String)>>)
        ensures
            exists|l1: Option<usize>, l2: Option<usize>| cache_result(l1, l2, opt_chars(l3), r),
            l3 is Some ==> r is Some,
    {
        let l1 = l1_size();
        let l2 = l2_size();
        let r = Self::cache_entries(l1, l2, l3);
        assert(cache_result(l1, l2, opt_chars(l3), r));
        r
    }

    /// The L3 cache size that `lscpu` reports: the first two words after
    /// `L3 cache:` on the first line that starts with it, `None` where no
    /// line does or that line has no word after the label.
    pub fn lscpu_l3_cache(stdout: &str) -> (r: Option<String>)
        ensures
            opt_chars(r) == l3_first_line_size(stdout@),
    {
        let chars = str_chars(stdout);
        match first_line_l3(&chars) {
            Some(v) => Some(string_from_chars(&v)),
            None => None,
        }
    }
}

/// The characters of an optional string.
pub open spec fn opt_chars(o: Option<String>) -> Option<Seq<char>> {
    match o {
        Some(s) => Some(s@),
        None => None,
    }
}

/// The characters of each name and value.
pub open spec fn pairs_view(v: Seq<(String, String)>) -> Seq<(Seq<char>, Seq<char>)> {
    v.map_values(|p: (String, String)| (p.0@, p.1@))
}

/// The cache entries made of the known sizes, in the order L1, L2, L3.
pub open spec fn cache_list(l1: Option<usize>, l2: Option<usize>, l3: Option<Seq<char>>) -> Seq<
    (Seq<char>, Seq<char>),
> {
    let a = match l1 {
        Some(b) => seq![(seq!['L', '1'], cache_kb_text(b as nat))],
        None => Seq::empty(),
    };
    let b = match l2 {
        Some(b) => seq![(seq!['L', '2'], cache_kb_text(b as nat))],
        None => Seq::empty(),
    };
    let c = match l3 {
        Some(s) => seq![(seq!['L', '3'], s)],
        None => Seq::empty(),
    };
    a + b + c
}

/// `r` holds the cache entries made of the given sizes, or `None` where
/// there is none.
pub open spec fn cache_result(
    l1: Option<usize>,
    l2: Option<usize>,
    l3: Option<Seq<char>>,
    r: Option<Vec<(String, String)>>,
) -> bool {
    match r {
        None => cache_list(l1, l2, l3).len() == 0,
        Some(m) => m@.len() > 0 && pairs_view(m@) == cache_list(l1, l2, l3),
    }
}

/// `cache_size::l1_cache_size`: the L1 data cache size in bytes, as the
/// processor reports it. Nothing is claimed of the result: it depends on
/// the machine.
#[verifier::external_body]
fn l1_size() -> (r: Option<usize>) {
    cache_size::l1_cache_size()
}

/// `cache_size::l2_cache_size`: the unified L2 cache size in bytes, as the
/// processor reports it. Nothing is claimed of the result: it depends on
/// the machine.
#[verifier::external_body]
fn l2_size() -> (r: Option<usize>) {
    cache_size::l2_cache_size()
}

} // verus!
