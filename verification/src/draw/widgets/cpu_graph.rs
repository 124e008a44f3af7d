//! The per-core CPU graph: its colours.

use vstd::prelude::*;
use crate::binary::{decode_f64, f64_from_bits, float_lt, float_lt_exec, fmt_fixed, push_float_fixed};
use crate::decimal::{dec_digits, pad_left, pad_right, push_dec};
use crate::draw::widgets::cpu_bar::push_padded;
use crate::text::{push_str, string_from_chars};
use crate::ui::Color;
use indexmap::IndexMap;

verus! {

#[verifier::external_type_specification]
#[verifier::external_body]
#[verifier::reject_recursive_types(K)]
#[verifier::reject_recursive_types(V)]
#[verifier::reject_recursive_types(S)]
pub struct ExIndexMap<K, V, S>(IndexMap<K, V, S>);

/// The entries of a map from core index to usage (`f64` bit pattern), in
/// the map's order.
pub uninterp spec fn core_entries(m: IndexMap<usize, u64>) -> Seq<(usize, u64)>;

/// No key occurs twice.
pub open spec fn keys_unique(e: Seq<(usize, u64)>) -> bool {
    forall|i: int, j: int| 0 <= i < j < e.len() ==> #[trigger] e[i].0 != #[trigger] e[j].0
}

/// `IndexMap::new`. Claimed, as its documentation states: the map is empty.
#[verifier::external_body]
fn map_new() -> (m: IndexMap<usize, u64>)
    ensures
        core_entries(m) == Seq::<(usize, u64)>::empty(),
{
    IndexMap::new()
}

/// `IndexMap::insert`. Claimed, as its documentation and source state: an
/// entry with an equal key keeps its place and takes the new value;
/// without one the pair is added last.
#[verifier::external_body]
fn map_insert(m: &mut IndexMap<usize, u64>, key: usize, value: u64)
    ensures
        (exists|i: int| 0 <= i < core_entries(*old(m)).len() && core_entries(*old(m))[i].0 == key)
            ==> exists|i: int|
            0 <= i < core_entries(*old(m)).len() && core_entries(*old(m))[i].0 == key
                && core_entries(*final(m)) == core_entries(*old(m)).update(i, (key, value)),
        (forall|i: int| 0 <= i < core_entries(*old(m)).len() ==> core_entries(*old(m))[i].0 != key)
            ==> core_entries(*final(m)) == core_entries(*old(m)).push((key, value)),
{
    m.insert(key, value);
}

/// `IndexMap::len`. Claimed: the number of entries.
#[verifier::external_body]
fn map_len(m: &IndexMap<usize, u64>) -> (n: usize)
    ensures
        n == core_entries(*m).len(),
{
    m.len()
}

/// `IndexMap::get_index`, the pair copied out. Claimed: the entry at that
/// place, if there is one.
#[verifier::external_body]
fn map_get_index(m: &IndexMap<usize, u64>, index: usize) -> (r: Option<(usize, u64)>)
    ensures
        index < core_entries(*m).len() ==> r == Some(core_entries(*m)[index as int]),
        index >= core_entries(*m).len() ==> r is None,
{
    match m.get_index(index) {
        Some((k, v)) => Some((*k, *v)),
        None => None,
    }
}

/// How a core's usage is coloured.
#[derive(Clone, Copy, Debug, PartialEq, Eq, Structural)]
pub enum ColorScheme {
    Green,
    Cyan,
    Red,
    Yellow,
    Blue,
    Magenta,
}

/// The colour of a usage, the `f64` with bit pattern `bits`, in a scheme.
pub open spec fn gradient_color(scheme: ColorScheme, bits: u64) -> Color {
    let p = f64_from_bits(bits);
    match scheme {
        ColorScheme::Green => if float_lt(p, 33) {
            Color::Green
        } else if float_lt(p, 66) {
            Color::LightGreen
        } else if float_lt(p, 90) {
            Color::Yellow
        } else {
            Color::Red
        },
        ColorScheme::Cyan => if float_lt(p, 50) {
            Color::Cyan
        } else {
            Color::LightCyan
        },
        ColorScheme::Red => if float_lt(p, 50) {
            Color::LightRed
        } else {
            Color::Red
        },
        ColorScheme::Yellow => Color::Yellow,
        ColorScheme::Blue => if float_lt(p, 50) {
            Color::Blue
        } else {
            Color::LightBlue
        },
        ColorScheme::Magenta => if float_lt(p, 50) {
            Color::Magenta
        } else {
            Color::LightMagenta
        },
    }
}

impl ColorScheme {
    /// The colour of a usage: a gradient over 33/66/90% for green, a light
    /// shade from 50% for the others, yellow always for yellow.
    pub fn get_gradient_color(&self, percentage_bits: u64) -> (c: Color)
        ensures
            c == gradient_color(*self, percentage_bits),
    {
        let p = decode_f64(percentage_bits);
        match self {
            ColorScheme::Green => {
                if float_lt_exec(p, 33) {
                    Color::Green
                } else if float_lt_exec(p, 66) {
                    Color::LightGreen
                } else if float_lt_exec(p, 90) {
                    Color::Yellow
                } else {
                    Color::Red
                }
            },
            ColorScheme::Cyan => if float_lt_exec(p, 50) {
                Color::Cyan
            } else {
                Color::LightCyan
            },
            ColorScheme::Red => if float_lt_exec(p, 50) {
                Color::LightRed
            } else {
                Color::Red
            },
            ColorScheme::Yellow => Color::Yellow,
            ColorScheme::Blue => if float_lt_exec(p, 50) {
                Color::Blue
            } else {
                Color::LightBlue
            },
            ColorScheme::Magenta => if float_lt_exec(p, 50) {
                Color::Magenta
            } else {
                Color::LightMagenta
            },
        }
    }
}


/// The per-core graph: each core's latest usage, and its colours.
pub struct MultiCoreGraph {
    pub cores: IndexMap<usize, u64>,
    pub color_scheme: ColorScheme,
}

/// `"C{:<2}"` of a core index.
pub open spec fn core_label_text(i: nat) -> Seq<char> {
    seq!['C'] + pad_right(dec_digits(i), 2)
}

/// `" {:>3.0}% "` of an `f64` usage with bit pattern `bits`.
pub open spec fn usage_label_text(bits: u64) -> Seq<char> {
    " "@ + pad_left(fmt_fixed(f64_from_bits(bits), 0), 3) + "% "@
}

/// How many cores fit in a row of `width` cells, and how wide each bar is:
/// a core takes ten cells of label and at least ten of bar.
pub open spec fn grid_layout(width: usize) -> (usize, usize) {
    let per_row = if width / 20 >= 1 { width / 20 } else { 1 };
    let cell = width / per_row;
    (per_row as usize, (if cell >= 10 { cell - 10 } else { 0 }) as usize)
}

/// The entries after `key` is given `value`: an entry with that key keeps
/// its place and takes the value; without one the pair comes last.
pub open spec fn with_entry(e: Seq<(usize, u64)>, key: usize, value: u64) -> Seq<(usize, u64)> {
    if exists|i: int| 0 <= i < e.len() && e[i].0 == key {
        e.update(choose|i: int| 0 <= i < e.len() && e[i].0 == key, (key, value))
    } else {
        e.push((key, value))
    }
}

/// The entries after cores `0 .. k` are given their usages in order.
pub open spec fn entries_after(e: Seq<(usize, u64)>, usages: Seq<u64>, k: int) -> Seq<(usize, u64)>
    decreases k,
{
    if k <= 0 {
        e
    } else {
        with_entry(entries_after(e, usages, k - 1), (k - 1) as usize, usages[k - 1])
    }
}

/// The rows of the core grid: the cores in order, `per_row` to a row, as
/// many rows as they fill but at most `height`.
pub open spec fn grid_rows(e: Seq<(usize, u64)>, per_row: int, height: int) -> Seq<Seq<(usize, u64)>> {
    let needed = (e.len() + per_row - 1) / per_row;
    let n = if needed <= height { needed } else { height };
    Seq::new(
        n as nat,
        |r: int| e.subrange(r * per_row, if (r + 1) * per_row <= e.len() { (r + 1) * per_row } else { e.len() as int }),
    )
}

/// The entries, `per_row` to a row, in as many rows as they fill but at
/// most `height`.
pub fn chunk_rows(e: &Vec<(usize, u64)>, per_row: usize, height: usize) -> (rows: Vec<Vec<(usize, u64)>>)
    requires
        per_row >= 1,
    ensures
        rows@.len() == grid_rows(e@, per_row as int, height as int).len(),
        forall|r: int| 0 <= r < rows@.len() ==> #[trigger] rows@[r]@ == grid_rows(e@, per_row as int, height as int)[r],
{
    let n = e.len();
    let ghost p = per_row as int;
    let ghost want = grid_rows(e@, p, height as int);
    let mut rows: Vec<Vec<(usize, u64)>> = Vec::new();
    let mut start: usize = 0;
    assert(rows.len() * p == 0 * p);
    assert(0 * p == 0) by (nonlinear_arith);
    while start < n && rows.len() < height
        invariant
            n == e@.len(),
            per_row >= 1,
            p == per_row as int,
            want == grid_rows(e@, p, height as int),
            start == (if rows.len() * p <= n { rows.len() * p } else { n as int }),
            rows.len() > 0 ==> (rows.len() - 1) * p < n,
            rows.len() <= height,
            forall|r: int| 0 <= r < rows@.len() ==> #[trigger] rows@[r]@ == e@.subrange(
                r * p,
                if (r + 1) * p <= n { (r + 1) * p } else { n as int },
            ),
        decreases n - start,
    {
        let ghost k = rows.len() as int;
        assert(start == k * p);
        let end = if n - start >= per_row {
            start + per_row
        } else {
            n
        };
        assert((k + 1) * p == k * p + p) by (nonlinear_arith);
        let mut row: Vec<(usize, u64)> = Vec::new();
        let mut j = start;
        while j < end
            invariant
                start <= j <= end <= n,
                n == e@.len(),
                row@ == e@.subrange(start as int, j as int),
            decreases end - j,
        {
            row.push(e[j]);
            assert(e@.subrange(start as int, j + 1) =~= e@.subrange(start as int, j as int).push(e@[j as int]));
            j = j + 1;
        }
        rows.push(row);
        start = end;
        proof {
            assert((k + 1) * p <= n ==> start == (k + 1) * p);
            assert(k * p < n);
        }
    }
    proof {
        let k = rows.len() as int;
        let needed = (n + p - 1) / p;
        if start >= n {
            assert(k * p >= n);
            if k > 0 {
                assert((k - 1) * p == k * p - p) by (nonlinear_arith);
                vstd::arithmetic::div_mod::lemma_fundamental_div_mod_converse(n + p - 1, p, k, n + p - 1 - k * p);
            } else {
                assert(n == 0);
                vstd::arithmetic::div_mod::lemma_fundamental_div_mod_converse(n + p - 1, p, 0, n + p - 1);
            }
            assert(needed == k);
        } else {
            assert(k == height);
            assert(k * p < n);
            vstd::arithmetic::div_mod::lemma_div_is_ordered(k * p + p, n + p - 1, p);
            vstd::arithmetic::div_mod::lemma_div_multiples_vanish(k + 1, p);
            assert((k + 1) * p == k * p + p) by (nonlinear_arith);
            assert(needed >= k + 1);
        }
        assert(rows@.len() == want.len());
    }
    rows
}

impl MultiCoreGraph {
    /// The cores and their usages, in order.
    pub open spec fn entries_spec(self) -> Seq<(usize, u64)> {
        core_entries(self.cores)
    }

    /// The keys stay unique.
    pub open spec fn wf(self) -> bool {
        keys_unique(core_entries(self.cores))
    }

    /// A graph of `num_cores` cores, all at zero usage.
    pub fn new(num_cores: usize, color_scheme: ColorScheme) -> (g: Self)
        ensures
            g.wf(),
            g.entries_spec() == fresh_entries(num_cores as nat),
            g.color_scheme == color_scheme,
    {
        let mut cores = map_new();
        for i in 0..num_cores
            invariant
                core_entries(cores) == Seq::new(i as nat, |k: int| (k as usize, 0u64)),
        {
            let ghost before = core_entries(cores);
            map_insert(&mut cores, i, 0);
            proof {
                assert(forall|k: int| 0 <= k < before.len() ==> before[k].0 != i);
                assert(core_entries(cores) =~= Seq::new((i + 1) as nat, |k: int| (k as usize, 0u64)));
            }
        }
        MultiCoreGraph { cores, color_scheme }
    }

    /// Records a core's usage: a known core keeps its place, a new one
    /// comes last.
    pub fn insert(&mut self, core: usize, usage_bits: u64)
        requires
            old(self).wf(),
        ensures
            final(self).wf(),
            final(self).color_scheme == old(self).color_scheme,
            final(self).entries_spec() == with_entry(old(self).entries_spec(), core, usage_bits),
    {
        let ghost before = core_entries(self.cores);
        map_insert(&mut self.cores, core, usage_bits);
        proof {
            let after = core_entries(self.cores);
            if exists|i: int| 0 <= i < before.len() && before[i].0 == core {
                let i = choose|i: int| 0 <= i < before.len() && before[i].0 == core && after == before.update(i, (core, usage_bits));
                let c = choose|i: int| 0 <= i < before.len() && before[i].0 == core;
                if c != i {
                    if c < i {
                        assert(before[c].0 != before[i].0);
                    } else {
                        assert(before[i].0 != before[c].0);
                    }
                }
                assert forall|a: int, b: int| 0 <= a < b < after.len() implies #[trigger] after[a].0 != #[trigger] after[b].0 by {
                    assert(before[a].0 != before[b].0);
                }
            } else {
                assert forall|a: int, b: int| 0 <= a < b < after.len() implies #[trigger] after[a].0 != #[trigger] after[b].0 by {
                    if b < before.len() {
                        assert(before[a].0 != before[b].0);
                    }
                }
            }
        }
    }

    /// Records the usage of every core, core `i` taking `usages[i]`, in
    /// order.
    pub fn update_cores(&mut self, usages: &Vec<u64>)
        requires
            old(self).wf(),
        ensures
            final(self).wf(),
            final(self).color_scheme == old(self).color_scheme,
            final(self).entries_spec() == entries_after(old(self).entries_spec(), usages@, usages@.len() as int),
    {
        let ghost start = self.entries_spec();
        for i in 0..usages.len()
            invariant
                self.wf(),
                self.color_scheme == old(self).color_scheme,
                start == old(self).entries_spec(),
                self.entries_spec() == entries_after(start, usages@, i as int),
        {
            self.insert(i, usages[i]);
        }
    }

    /// Whether the graph has no cores.
    pub fn is_empty(&self) -> (r: bool)
        ensures
            r == (self.entries_spec().len() == 0),
    {
        map_len(&self.cores) == 0
    }

    /// The cores and their usages, in order.
    pub fn entries(&self) -> (v: Vec<(usize, u64)>)
        ensures
            v@ == self.entries_spec(),
    {
        let n = map_len(&self.cores);
        let mut v: Vec<(usize, u64)> = Vec::new();
        for i in 0..n
            invariant
                n == core_entries(self.cores).len(),
                v@ == core_entries(self.cores).take(i as int),
        {
            match map_get_index(&self.cores, i) {
                Some(e) => v.push(e),
                None => {},
            }
            assert(core_entries(self.cores).take(i + 1) =~= core_entries(self.cores).take(i as int).push(core_entries(self.cores)[i as int]));
        }
        assert(core_entries(self.cores).take(n as int) =~= core_entries(self.cores));
        v
    }

    /// Cores per row and bar width for a grid `width` cells wide.
    pub fn grid_layout(width: usize) -> (r: (usize, usize))
        ensures
            r == grid_layout(width),
            r.0 >= 1,
    {
        let per_row = if width / 20 >= 1 {
            width / 20
        } else {
            1
        };
        let cell = width / per_row;
        (per_row, if cell >= 10 {
            cell - 10
        } else {
            0
        })
    }

    /// The cores, row by row, of a grid `width` cells wide and `height`
    /// lines tall.
    pub fn generate_core_grid(&self, width: usize, height: usize) -> (rows: Vec<Vec<(usize, u64)>>)
        ensures
            rows@.len() == grid_rows(self.entries_spec(), grid_layout(width).0 as int, height as int).len(),
            forall|r: int| 0 <= r < rows@.len() ==> #[trigger] rows@[r]@ == grid_rows(self.entries_spec(), grid_layout(width).0 as int, height as int)[r],
    {
        let (per_row, _bar) = Self::grid_layout(width);
        let e = self.entries();
        chunk_rows(&e, per_row, height)
    }

    /// The label of a core: `"C{:<2}"`.
    pub fn core_label(index: usize) -> (s: String)
        ensures
            s@ == core_label_text(index as nat),
    {
        let mut digits: Vec<char> = Vec::new();
        push_dec(index as u128, &mut digits);
        let mut out: Vec<char> = Vec::new();
        out.push('C');
        let ghost d = digits@;
        let len = digits.len();
        for i in 0..len
            invariant
                len == digits.len(),
                digits@ == d,
                out@ == seq!['C'] + d.take(i as int),
        {
            out.push(digits[i]);
            assert(d.take(i + 1) =~= d.take(i as int).push(d[i as int]));
        }
        assert(d.take(len as int) =~= d);
        if len < 2 {
            crate::decimal::push_repeat(' ', 2 - len, &mut out);
        }
        assert(out@ =~= core_label_text(index as nat));
        string_from_chars(&out)
    }

    /// The usage label of a core: `" {:>3.0}% "`.
    pub fn usage_label(usage_bits: u64) -> (s: String)
        ensures
            s@ == usage_label_text(usage_bits),
    {
        let mut out: Vec<char> = Vec::new();
        push_str(&mut out, " ");
        let mut num: Vec<char> = Vec::new();
        push_float_fixed(decode_f64(usage_bits), 0, &mut num);
        push_padded(num, 3, &mut out);
        push_str(&mut out, "% ");
        string_from_chars(&out)
    }
}

/// The entries of a fresh graph of `n` cores.
pub open spec fn fresh_entries(n: nat) -> Seq<(usize, u64)> {
    Seq::new(n, |i: int| (i as usize, 0u64))
}

proof fn lemma_fill_step(n: usize, usages: Seq<u64>, k: int)
    requires
        usages.len() == n,
        0 <= k <= n,
    ensures
        entries_after(fresh_entries(n as nat), usages, k) == Seq::new(
            n as nat,
            |i: int| (i as usize, if i < k { usages[i] } else { 0u64 }),
        ),
    decreases k,
{
    if k > 0 {
        lemma_fill_step(n, usages, k - 1);
        let e = entries_after(fresh_entries(n as nat), usages, k - 1);
        let key = (k - 1) as usize;
        assert(e[k - 1].0 == key);
        let c = choose|i: int| 0 <= i < e.len() && e[i].0 == key;
        assert(c == k - 1);
        assert(entries_after(fresh_entries(n as nat), usages, k) =~= Seq::new(
            n as nat,
            |i: int| (i as usize, if i < k { usages[i] } else { 0u64 }),
        ));
    } else {
        assert(fresh_entries(n as nat) =~= Seq::new(
            n as nat,
            |i: int| (i as usize, if i < k { usages[i] } else { 0u64 }),
        ));
    }
}

/// A graph made for `n` cores and then given one usage per core holds core
/// `i` at place `i` with usage `usages[i]`, for every `i`.
pub proof fn lemma_fresh_graph_filled(n: usize, usages: Seq<u64>)
    requires
        usages.len() == n,
    ensures
        entries_after(fresh_entries(n as nat), usages, n as int) == Seq::new(
            n as nat,
            |i: int| (i as usize, usages[i]),
        ),
{
    lemma_fill_step(n, usages, n as int);
    assert(Seq::new(n as nat, |i: int| (i as usize, if i < n { usages[i] } else { 0u64 })) =~= Seq::new(
        n as nat,
        |i: int| (i as usize, usages[i]),
    ));
}

/// A row before the last needed one starts inside the entries.
proof fn lemma_row_starts_inside(len: int, p: int, r: int)
    requires
        p >= 1,
        len >= 0,
        0 <= r < (len + p - 1) / p,
    ensures
        r * p < len,
{
    let x = len + p - 1;
    vstd::arithmetic::div_mod::lemma_fundamental_div_mod(x, p);
    assert(x == p * (x / p) + x % p);
    assert(0 <= x % p < p) by {
        vstd::arithmetic::div_mod::lemma_mod_bound(x, p);
    }
    assert(x / p >= r + 1);
    assert(p * (x / p) >= p * (r + 1)) by (nonlinear_arith)
        requires
            x / p >= r + 1,
            p >= 1,
    ;
    assert(p * (r + 1) == r * p + p) by (nonlinear_arith);
}

proof fn lemma_grid_prefix(e: Seq<(usize, u64)>, p: int, h: int, k: int)
    requires
        p >= 1,
        h >= 0,
        0 <= k <= grid_rows(e, p, h).len(),
    ensures
        grid_rows(e, p, h).take(k).flatten() == e.take(if k * p <= e.len() { k * p } else { e.len() as int }),
    decreases k,
{
    let g = grid_rows(e, p, h);
    if k == 0 {
        assert(g.take(0) =~= Seq::<Seq<(usize, u64)>>::empty());
        assert(0 * p == 0) by (nonlinear_arith);
        assert(e.take(0) =~= Seq::<(usize, u64)>::empty());
    } else {
        lemma_grid_prefix(e, p, h, k - 1);
        vstd::arithmetic::div_mod::lemma_div_pos_is_pos(e.len() + p - 1, p);
        assert(k - 1 < (e.len() + p - 1) / p);
        assert(g.take(k) =~= g.take(k - 1).push(g[k - 1]));
        g.take(k - 1).lemma_flatten_push(g[k - 1]);
        lemma_row_starts_inside(e.len() as int, p, k - 1);
        assert((k - 1) * p + p == k * p) by (nonlinear_arith);
        let hi = if k * p <= e.len() { k * p } else { e.len() as int };
        assert(g[k - 1] == e.subrange((k - 1) * p, hi));
        assert(e.take(hi) =~= e.take((k - 1) * p) + e.subrange((k - 1) * p, hi));
    }
}

/// The grid shows the cores in order, each once: its rows, one after the
/// other, are the first cores, as many as `height` rows of `per_row` hold.
pub proof fn lemma_grid_in_order(e: Seq<(usize, u64)>, per_row: int, height: int)
    requires
        per_row >= 1,
        height >= 0,
    ensures
        grid_rows(e, per_row, height).flatten() == e.take(
            if e.len() <= height * per_row { e.len() as int } else { height * per_row },
        ),
{
    let g = grid_rows(e, per_row, height);
    let n = g.len() as int;
    let needed = (e.len() + per_row - 1) / per_row;
    lemma_grid_prefix(e, per_row, height, n);
    assert(g.take(n) =~= g);
    if needed <= height {
        assert(n == needed);
        vstd::arithmetic::div_mod::lemma_fundamental_div_mod(e.len() + per_row - 1, per_row);
        vstd::arithmetic::div_mod::lemma_mod_bound(e.len() + per_row - 1, per_row);
        assert(n * per_row >= e.len()) by (nonlinear_arith)
            requires
                e.len() + per_row - 1 == per_row * n + (e.len() + per_row - 1) % per_row,
                (e.len() + per_row - 1) % per_row < per_row,
        ;
        assert(height * per_row >= n * per_row) by (nonlinear_arith)
            requires
                height >= n,
                per_row >= 1,
        ;
    } else {
        assert(n == height);
        if height > 0 {
            lemma_row_starts_inside(e.len() as int, per_row, height - 1);
            assert((height - 1) * per_row + per_row == height * per_row) by (nonlinear_arith);
            assert(height * per_row <= e.len() || height * per_row > e.len());
            vstd::arithmetic::div_mod::lemma_fundamental_div_mod(e.len() + per_row - 1, per_row);
            vstd::arithmetic::div_mod::lemma_mod_bound(e.len() + per_row - 1, per_row);
            assert(height * per_row < e.len() + per_row) by (nonlinear_arith)
                requires
                    height < needed,
                    needed == (e.len() + per_row - 1) / per_row,
                    e.len() + per_row - 1 == per_row * needed + (e.len() + per_row - 1) % per_row,
                    (e.len() + per_row - 1) % per_row >= 0,
                    per_row >= 1,
            ;
        } else {
            assert(0 * per_row == 0) by (nonlinear_arith);
        }
    }
}

} // verus!
