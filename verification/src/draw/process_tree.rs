//! The process list: columns, sort order and search state.

use vstd::prelude::*;
use crate::binary::{
    decode_f32, f32_from_bits, f32_key, f32_key_exec, float_int_value, fmt_fixed, int_to_float,
    int_to_float_exec, lemma_f32_key_order, lemma_int_order_value, order_value,
    push_float_fixed, BinaryFloat,
};
use crate::decimal::{dec_digits, lemma_pow2_pos, pad_left, pow2, push_dec};
use crate::draw::widgets::cpu_bar::push_padded;
use crate::ui::Rect;
use crate::order::{chars_start_with, has_prefix};
use crate::processes::processdata::CollectProcessData;
use crate::draw::process_order::sort_by_place;
use crate::text::{lowercase, pop_char, push_char, push_str, str_chars, string_from_chars, to_lowercase};

verus! {

/// A column of the process list.
#[derive(Clone, Copy, Debug, PartialEq, Eq, Structural)]
pub enum ProcessColumn {
    Pid,
    Command,
    Program,
    MemUsage,
    CpuUsage,
}

/// The order of the process list.
#[derive(Clone, Copy, Debug, PartialEq, Eq, Structural)]
pub enum SortOrder {
    Descending,
}

/// Whether the list is being searched: not at all, while the query is
/// typed, once it is cleared, or with the typed filter kept in place.
#[derive(Clone, Copy, Debug, PartialEq, Eq, Structural)]
pub enum SearchState {
    NoSearch,
    Searching,
    ClearSearch,
    FilterApplied,
}

/// The header of a column.
pub open spec fn header_text(c: ProcessColumn) -> Seq<char> {
    match c {
        ProcessColumn::Pid => "PID"@,
        ProcessColumn::CpuUsage => "CPU"@,
        ProcessColumn::MemUsage => "MEM"@,
        ProcessColumn::Command => "Command"@,
        ProcessColumn::Program => "Program"@,
    }
}

impl ProcessColumn {
    /// The header of a column.
    pub fn display_header(process: ProcessColumn) -> (s: &'static str)
        ensures
            s@ == header_text(process),
    {
        match process {
            ProcessColumn::Pid => "PID",
            ProcessColumn::CpuUsage => "CPU",
            ProcessColumn::MemUsage => "MEM",
            ProcessColumn::Command => "Command",
            ProcessColumn::Program => "Program",
        }
    }
}


/// The length in bytes of a string, as `str::len` gives it.
pub open spec fn str_len(s: Seq<char>) -> usize {
    vstd::utf8::encode_utf8(s).len() as usize
}

/// The value a column sorts a process by: a usage percentage, or the
/// process id or a text length converted to `f32`.
pub open spec fn column_float(p: CollectProcessData, col: ProcessColumn) -> BinaryFloat {
    match col {
        ProcessColumn::Pid => int_to_float(p.pid as nat, 24),
        ProcessColumn::CpuUsage => f32_from_bits(p.cpu_usage_percent),
        ProcessColumn::MemUsage => f32_from_bits(p.mem_usage_percent),
        ProcessColumn::Command => int_to_float(str_len(p.command@) as nat, 24),
        ProcessColumn::Program => int_to_float(str_len(p.program@) as nat, 24),
    }
}

/// The sort value of a process in a column (see `order_value`).
#[verifier::opaque]
pub open spec fn sort_value(p: CollectProcessData, col: ProcessColumn) -> int {
    order_value(column_float(p, col))
}

/// An integer ordered as `sort_value`.
#[verifier::opaque]
pub open spec fn key_int(p: CollectProcessData, col: ProcessColumn) -> int {
    match col {
        ProcessColumn::CpuUsage => f32_key(p.cpu_usage_percent),
        ProcessColumn::MemUsage => f32_key(p.mem_usage_percent),
        _ => float_int_value(column_float(p, col)),
    }
}

/// `a` comes before `b`: the larger sort value first, then the smaller
/// process id.
pub open spec fn listed_before(
    a: CollectProcessData,
    b: CollectProcessData,
    col: ProcessColumn,
    order: SortOrder,
) -> bool {
    match order {
        SortOrder::Descending => sort_value(a, col) > sort_value(b, col) || (sort_value(a, col)
            == sort_value(b, col) && a.pid < b.pid),
    }
}

/// `a` and `b` have the same place in the order: the same sort value and
/// the same process id.
pub open spec fn same_place(a: CollectProcessData, b: CollectProcessData, col: ProcessColumn) -> bool {
    sort_value(a, col) == sort_value(b, col) && a.pid == b.pid
}

/// `x` is `input[s]`, and no later process of `input` has its place.
pub open spec fn is_last_at(
    input: Seq<CollectProcessData>,
    s: int,
    x: CollectProcessData,
    col: ProcessColumn,
) -> bool {
    &&& 0 <= s < input.len()
    &&& input[s] == x
    &&& forall|t: int| s < t < input.len() ==> !same_place(#[trigger] input[t], x, col)
}

/// `x` is the last process of `input` with its place.
pub open spec fn is_last_of(input: Seq<CollectProcessData>, x: CollectProcessData, col: ProcessColumn) -> bool {
    exists|s: int| is_last_at(input, s, x, col)
}

/// Some process of `out` has the place of `y`.
pub open spec fn has_place(out: Seq<CollectProcessData>, y: CollectProcessData, col: ProcessColumn) -> bool {
    exists|a: int| 0 <= a < out.len() && same_place(#[trigger] out[a], y, col)
}

/// `out` is `input` in list order, one process per place: the last one
/// of `input` that holds it.
pub open spec fn sorted_list_of(
    out: Seq<CollectProcessData>,
    input: Seq<CollectProcessData>,
    col: ProcessColumn,
    order: SortOrder,
) -> bool {
    &&& forall|a: int, b: int|
        0 <= a < b < out.len() ==> listed_before(#[trigger] out[a], #[trigger] out[b], col, order)
    &&& forall|a: int| 0 <= a < out.len() ==> is_last_of(input, #[trigger] out[a], col)
    &&& forall|t: int| 0 <= t < input.len() ==> has_place(out, #[trigger] input[t], col)
}

/// `key_int` orders processes as `sort_value` does.
pub proof fn lemma_key_int_order(a: CollectProcessData, b: CollectProcessData, col: ProcessColumn)
    ensures
        (key_int(a, col) < key_int(b, col)) == (sort_value(a, col) < sort_value(b, col)),
        (key_int(a, col) == key_int(b, col)) == (sort_value(a, col) == sort_value(b, col)),
{
    reveal(key_int);
    reveal(sort_value);
    match col {
        ProcessColumn::CpuUsage => lemma_f32_key_order(a.cpu_usage_percent, b.cpu_usage_percent),
        ProcessColumn::MemUsage => lemma_f32_key_order(a.mem_usage_percent, b.mem_usage_percent),
        _ => {
            let (na, nb): (u64, u64) = match col {
                ProcessColumn::Pid => (a.pid as u64, b.pid as u64),
                ProcessColumn::Command => (str_len(a.command@) as u64, str_len(b.command@) as u64),
                _ => (str_len(a.program@) as u64, str_len(b.program@) as u64),
            };
            assert(column_float(a, col) == int_to_float(na as nat, 24));
            assert(column_float(b, col) == int_to_float(nb as nat, 24));
            lemma_int_order_value(na, 24);
            lemma_int_order_value(nb, 24);
            lemma_pow2_pos(149);
            let x = key_int(a, col);
            let y = key_int(b, col);
            let q = pow2(149) as int;
            assert((x < y) == (x * q < y * q)) by (nonlinear_arith)
                requires
                    q >= 1,
            ;
            assert((x == y) == (x * q == y * q)) by (nonlinear_arith)
                requires
                    q >= 1,
            ;
        },
    }
}

/// The integer `key_int` of a process in a column.
pub(crate) fn primary_key(p: &CollectProcessData, col: ProcessColumn) -> (k: i128)
    ensures
        k == key_int(*p, col),
        i128::MIN < k,
{
    reveal(key_int);
    match col {
        ProcessColumn::CpuUsage => f32_key_exec(p.cpu_usage_percent) as i128,
        ProcessColumn::MemUsage => f32_key_exec(p.mem_usage_percent) as i128,
        _ => {
            let n: u64 = match col {
                ProcessColumn::Pid => p.pid as u64,
                ProcessColumn::Command => p.command.as_str().len() as u64,
                _ => p.program.as_str().len() as u64,
            };
            let v = int_to_float_exec(n, 24);
            proof {
                lemma_int_order_value(n, 24);
                assert(v == column_float(*p, col));
            }
            match v {
                BinaryFloat::Finite { mantissa, exponent, .. } => {
                    proof {
                        crate::decimal::lemma_pow2_mono(exponent as nat, 64);
                        crate::decimal::lemma_pow2_add(24, 64);
                        crate::decimal::lemma_pow2_mono(88, 101);
                        crate::binary::lemma_pow2_101();
                        assert(mantissa as nat * pow2(exponent as nat) <= pow2(24) * pow2(64))
                            by (nonlinear_arith)
                            requires
                                mantissa as nat <= pow2(24),
                                pow2(exponent as nat) <= pow2(64),
                        ;
                    }
                    let m: u128 = mantissa as u128 * crate::binary::pow2_u128(exponent as u32);
                    m as i128
                },
                _ => 0,
            }
        },
    }
}


/// `a` comes before `b` by `key_int`.
pub open spec fn key_before(a: CollectProcessData, b: CollectProcessData, col: ProcessColumn) -> bool {
    key_int(a, col) > key_int(b, col) || (key_int(a, col) == key_int(b, col) && a.pid < b.pid)
}

/// `a` and `b` have the same `key_int` and process id.
pub open spec fn key_same(a: CollectProcessData, b: CollectProcessData, col: ProcessColumn) -> bool {
    key_int(a, col) == key_int(b, col) && a.pid == b.pid
}

/// What holds of `out` after the first `i` processes of `input` are
/// sorted: `out` is in order, each entry is the last of its place so far
/// (it came from `srcs`), and every place so far has an entry.
pub open spec fn sort_inv(
    out: Seq<CollectProcessData>,
    srcs: Seq<int>,
    input: Seq<CollectProcessData>,
    i: int,
    col: ProcessColumn,
) -> bool {
    &&& srcs.len() == out.len()
    &&& 0 <= i <= input.len()
    &&& forall|a: int, b: int|
        0 <= a < b < out.len() ==> key_before(#[trigger] out[a], #[trigger] out[b], col)
    &&& forall|a: int|
        0 <= a < out.len() ==> 0 <= #[trigger] srcs[a] < i && input[srcs[a]] == out[a] && forall|
            t: int,
        | srcs[a] < t < i ==> !key_same(#[trigger] input[t], out[a], col)
    &&& forall|t: int| 0 <= t < i ==> has_key(out, #[trigger] input[t], col)
}

/// Some process of `out` has the `key_int` and process id of `x`.
pub open spec fn has_key(out: Seq<CollectProcessData>, x: CollectProcessData, col: ProcessColumn) -> bool {
    exists|a: int| 0 <= a < out.len() && key_same(#[trigger] out[a], x, col)
}

proof fn lemma_sort_done_order(
    out: Seq<CollectProcessData>,
    srcs: Seq<int>,
    input: Seq<CollectProcessData>,
    col: ProcessColumn,
    order: SortOrder,
)
    requires
        sort_inv(out, srcs, input, input.len() as int, col),
    ensures
        forall|a: int, b: int|
            0 <= a < b < out.len() ==> listed_before(#[trigger] out[a], #[trigger] out[b], col, order),
{
    assert forall|a: int, b: int| 0 <= a < b < out.len() implies listed_before(
        #[trigger] out[a],
        #[trigger] out[b],
        col,
        order,
    ) by {
        assert(key_before(out[a], out[b], col));
        lemma_key_int_order(out[a], out[b], col);
        lemma_key_int_order(out[b], out[a], col);
    }
}

proof fn lemma_sort_done_last(
    out: Seq<CollectProcessData>,
    srcs: Seq<int>,
    input: Seq<CollectProcessData>,
    col: ProcessColumn,
)
    requires
        sort_inv(out, srcs, input, input.len() as int, col),
    ensures
        forall|a: int| 0 <= a < out.len() ==> is_last_of(input, #[trigger] out[a], col),
{
    assert forall|a: int| 0 <= a < out.len() implies is_last_of(input, #[trigger] out[a], col) by {
        let s = srcs[a];
        assert forall|t: int| s < t < input.len() implies !same_place(
            #[trigger] input[t],
            out[a],
            col,
        ) by {
            lemma_key_int_order(input[t], out[a], col);
            assert(!key_same(input[t], out[a], col));
        }
        assert(is_last_at(input, s, out[a], col));
    }
}

proof fn lemma_sort_done_all(
    out: Seq<CollectProcessData>,
    srcs: Seq<int>,
    input: Seq<CollectProcessData>,
    col: ProcessColumn,
)
    requires
        sort_inv(out, srcs, input, input.len() as int, col),
    ensures
        forall|t: int| 0 <= t < input.len() ==> has_place(out, #[trigger] input[t], col),
{
    assert forall|t: int| 0 <= t < input.len() implies has_place(out, #[trigger] input[t], col) by {
        let a = choose|a: int| 0 <= a < out.len() && key_same(#[trigger] out[a], input[t], col);
        lemma_key_int_order(out[a], input[t], col);
        assert(same_place(out[a], input[t], col));
    }
}

/// Sorts processes in list order, keeping one per place: the last given.
pub fn sort_processes(
    processes: &Vec<CollectProcessData>,
    col: ProcessColumn,
    order: SortOrder,
) -> (out: Vec<CollectProcessData>)
    ensures
        sorted_list_of(out@, processes@, col, order),
{
    let out = sort_by_place(processes, col);
    proof {
        let srcs = choose|srcs: Seq<int>| sort_inv(out@, srcs, processes@, processes@.len() as int, col);
        lemma_sort_done_order(out@, srcs, processes@, col, order);
        lemma_sort_done_last(out@, srcs, processes@, col);
        lemma_sort_done_all(out@, srcs, processes@, col);
    }
    out
}


/// A process matches a query when its program or its command, in
/// lowercase, starts with it.
pub open spec fn matches_query(p: CollectProcessData, q: Seq<char>) -> bool {
    has_prefix(lowercase(p.program@), q) || has_prefix(lowercase(p.command@), q)
}

/// The processes of `table` that match the lowercase form of `input`.
pub open spec fn filtered(table: Seq<CollectProcessData>, input: Seq<char>) -> Seq<CollectProcessData> {
    table.filter(|p: CollectProcessData| matches_query(p, lowercase(input)))
}

/// The process list: its order, its search and its rows.
pub struct ProcessWidget {
    sort_column: ProcessColumn,
    sort_order: SortOrder,
    pub search_state: SearchState,
    pub search_input: String,
    collector: CollectProcessData,
    proc_table: Vec<CollectProcessData>,
    pub filtered_table: Vec<CollectProcessData>,
}

/// The header of the list: `"{:>7} {:>7} {:>7} {:>15} {}"` of the column
/// names PID, CPU, MEM, Program and Command.
pub open spec fn header_line_text() -> Seq<char> {
    pad_left(seq!['P', 'I', 'D'], 7) + seq![' '] + pad_left(seq!['C', 'P', 'U'], 7) + seq![' ']
        + pad_left(seq!['M', 'E', 'M'], 7) + seq![' '] + pad_left(
        seq!['P', 'r', 'o', 'g', 'r', 'a', 'm'],
        15,
    ) + seq![' '] + seq!['C', 'o', 'm', 'm', 'a', 'n', 'd']
}

/// The line of a process: `"{:>7} {:>6.1}% {:>6.1}% {:>15} {}"` of its pid,
/// CPU and memory usage, program and command.
pub open spec fn process_line_text(p: CollectProcessData) -> Seq<char> {
    pad_left(dec_digits(p.pid as nat), 7) + seq![' '] + pad_left(
        fmt_fixed(f32_from_bits(p.cpu_usage_percent), 1),
        6,
    ) + seq!['%', ' '] + pad_left(fmt_fixed(f32_from_bits(p.mem_usage_percent), 1), 6) + seq![
        '%',
        ' ',
    ] + pad_left(p.program@, 15) + seq![' '] + p.command@
}

/// Where the filter box goes in the list's area: at its top right, at most
/// thirty cells wide, three lines tall.
pub open spec fn filter_area_spec(area: Rect) -> Rect {
    let w = if area.width <= 30 { area.width } else { 30 };
    Rect { x: (area.x + area.width - w) as u16, y: area.y, width: w as u16, height: 3 }
}

/// The lines of the list: the header, then one line per process.
pub open spec fn list_lines_of(procs: Seq<CollectProcessData>) -> Seq<Seq<char>> {
    seq![header_line_text()] + procs.map_values(|p: CollectProcessData| process_line_text(p))
}

/// The header line of the list.
pub fn header_line() -> (s: String)
    ensures
        s@ == header_line_text(),
{
    let mut out: Vec<char> = Vec::new();
    push_padded(vec!['P', 'I', 'D'], 7, &mut out);
    out.push(' ');
    push_padded(vec!['C', 'P', 'U'], 7, &mut out);
    out.push(' ');
    push_padded(vec!['M', 'E', 'M'], 7, &mut out);
    out.push(' ');
    push_padded(vec!['P', 'r', 'o', 'g', 'r', 'a', 'm'], 15, &mut out);
    out.push(' ');
    push_str(&mut out, "Command");
    proof {
        reveal_strlit("Command");
    }
    assert(out@ =~= header_line_text());
    string_from_chars(&out)
}

/// The line of one process.
pub fn process_line(p: &CollectProcessData) -> (s: String)
    ensures
        s@ == process_line_text(*p),
{
    let mut out: Vec<char> = Vec::new();
    let mut pid: Vec<char> = Vec::new();
    push_dec(p.pid as u128, &mut pid);
    push_padded(pid, 7, &mut out);
    out.push(' ');
    let mut cpu: Vec<char> = Vec::new();
    push_float_fixed(decode_f32(p.cpu_usage_percent), 1, &mut cpu);
    push_padded(cpu, 6, &mut out);
    out.push('%');
    out.push(' ');
    let mut mem: Vec<char> = Vec::new();
    push_float_fixed(decode_f32(p.mem_usage_percent), 1, &mut mem);
    push_padded(mem, 6, &mut out);
    out.push('%');
    out.push(' ');
    push_padded(str_chars(p.program.as_str()), 15, &mut out);
    out.push(' ');
    push_str(&mut out, p.command.as_str());
    assert(out@ =~= process_line_text(*p));
    string_from_chars(&out)
}

/// A copy of each row.
fn copy_rows(rows: &Vec<CollectProcessData>) -> (r: Vec<CollectProcessData>)
    ensures
        r@ == rows@,
{
    let mut r: Vec<CollectProcessData> = Vec::new();
    for i in 0..rows.len()
        invariant
            r@ == rows@.take(i as int),
    {
        r.push(rows[i].copy());
        assert(rows@.take(i + 1) =~= rows@.take(i as int).push(rows@[i as int]));
    }
    assert(rows@.take(rows.len() as int) =~= rows@);
    r
}

impl ProcessWidget {
    pub closed spec fn sort_column_spec(self) -> ProcessColumn {
        self.sort_column
    }

    pub closed spec fn sort_order_spec(self) -> SortOrder {
        self.sort_order
    }

    pub closed spec fn search_state_spec(self) -> SearchState {
        self.search_state
    }

    pub closed spec fn search_input_spec(self) -> Seq<char> {
        self.search_input@
    }

    pub closed spec fn table_spec(self) -> Seq<CollectProcessData> {
        self.proc_table@
    }

    pub closed spec fn filtered_spec(self) -> Seq<CollectProcessData> {
        self.filtered_table@
    }

    /// An empty list sorted by CPU usage, largest first, not searched.
    pub fn new() -> (w: Self)
        ensures
            w.sort_column_spec() == ProcessColumn::CpuUsage,
            w.sort_order_spec() == SortOrder::Descending,
            w.search_state_spec() == SearchState::NoSearch,
            w.search_input_spec() == Seq::<char>::empty(),
            w.table_spec() == Seq::<CollectProcessData>::empty(),
            w.filtered_spec() == Seq::<CollectProcessData>::empty(),
    {
        ProcessWidget {
            sort_column: ProcessColumn::CpuUsage,
            sort_order: SortOrder::Descending,
            search_state: SearchState::NoSearch,
            search_input: String::new(),
            collector: CollectProcessData {
                pid: 0,
                command: String::new(),
                program: String::new(),
                mem_usage_percent: 0,
                cpu_usage_percent: 0,
                uid: None,
                user: "",
            },
            proc_table: Vec::new(),
            filtered_table: Vec::new(),
        }
    }

    /// Whether a query is being typed.
    pub fn is_searching(&self) -> (r: bool)
        ensures
            r == (self.search_state_spec() == SearchState::Searching),
    {
        self.search_state == SearchState::Searching
    }

    /// Keeps the processes that match the query and empties the table.
    pub fn apply_filter(&mut self)
        ensures
            final(self).filtered_spec() == filtered(old(self).table_spec(), old(self).search_input_spec()),
            final(self).table_spec() == Seq::<CollectProcessData>::empty(),
            final(self).search_state_spec() == old(self).search_state_spec(),
            final(self).search_input_spec() == old(self).search_input_spec(),
            final(self).sort_column_spec() == old(self).sort_column_spec(),
            final(self).sort_order_spec() == old(self).sort_order_spec(),
    {
        let query = str_chars(to_lowercase(self.search_input.as_str()).as_str());
        let mut kept: Vec<CollectProcessData> = Vec::new();
        let ghost table = self.proc_table@;
        let ghost q = lowercase(self.search_input@);
        let ghost pred = |p: CollectProcessData| matches_query(p, q);
        for i in 0..self.proc_table.len()
            invariant
                table == self.proc_table@,
                query@ == q,
                q == lowercase(self.search_input@),
                pred == (|p: CollectProcessData| matches_query(p, q)),
                kept@ == table.take(i as int).filter(pred),
        {
            let p = &self.proc_table[i];
            let program = str_chars(to_lowercase(p.program.as_str()).as_str());
            let command = str_chars(to_lowercase(p.command.as_str()).as_str());
            proof {
                assert(table.take(i + 1) =~= table.take(i as int).push(table[i as int]));
                table.take(i as int).lemma_filter_push(table[i as int], pred);
            }
            if chars_start_with(&program, &query) || chars_start_with(&command, &query) {
                kept.push(p.copy());
            }
        }
        proof {
            assert(table.take(table.len() as int) =~= table);
        }
        self.filtered_table = kept;
        self.proc_table.clear();
    }

    /// Takes the current processes, and filters them while a query is
    /// being typed.
    pub fn refresh(&mut self, processes: Vec<CollectProcessData>)
        ensures
            old(self).search_state_spec() == SearchState::Searching ==> final(self).filtered_spec()
                == filtered(processes@, old(self).search_input_spec()) && final(self).table_spec()
                == Seq::<CollectProcessData>::empty(),
            old(self).search_state_spec() != SearchState::Searching ==> final(self).table_spec()
                == processes@ && final(self).filtered_spec() == old(self).filtered_spec(),
            final(self).search_state_spec() == old(self).search_state_spec(),
            final(self).search_input_spec() == old(self).search_input_spec(),
            final(self).sort_column_spec() == old(self).sort_column_spec(),
            final(self).sort_order_spec() == old(self).sort_order_spec(),
    {
        self.proc_table = processes;
        if self.is_searching() {
            self.apply_filter();
        }
    }

    /// The rows that are shown: the filtered ones while searching, else the
    /// whole table.
    pub fn shown(&self) -> (r: &Vec<CollectProcessData>)
        ensures
            r@ == (if self.search_state_spec() == SearchState::Searching {
                self.filtered_spec()
            } else {
                self.table_spec()
            }),
    {
        if self.is_searching() {
            &self.filtered_table
        } else {
            &self.proc_table
        }
    }

    /// The given processes in list order, one per place (see
    /// `sorted_list_of`).
    pub fn get_sorted_processes(&self, processes: Vec<CollectProcessData>) -> (r: Vec<
        CollectProcessData,
    >)
        ensures
            sorted_list_of(r@, processes@, self.sort_column_spec(), self.sort_order_spec()),
    {
        sort_processes(&processes, self.sort_column, self.sort_order)
    }

    /// The lines the list shows: the header, then the shown processes in
    /// list order (see `get_sorted_processes`).
    pub fn list_lines(&self) -> (v: Vec<String>)
        ensures
            exists|sorted: Seq<CollectProcessData>|
                sorted_list_of(
                    sorted,
                    if self.search_state_spec() == SearchState::Searching {
                        self.filtered_spec()
                    } else {
                        self.table_spec()
                    },
                    self.sort_column_spec(),
                    self.sort_order_spec(),
                ) && v@.map_values(|s: String| s@) == list_lines_of(sorted),
    {
        let rows = copy_rows(self.shown());
        let sorted = self.get_sorted_processes(rows);
        let mut v: Vec<String> = Vec::new();
        v.push(header_line());
        for i in 0..sorted.len()
            invariant
                v@.map_values(|s: String| s@) == list_lines_of(sorted@.take(i as int)),
        {
            v.push(process_line(&sorted[i]));
            assert(list_lines_of(sorted@.take(i + 1)) =~= list_lines_of(sorted@.take(i as int)).push(
                process_line_text(sorted@[i as int]),
            ));
            assert(v@.map_values(|s: String| s@) =~= list_lines_of(sorted@.take(i + 1)));
        }
        assert(sorted@.take(sorted.len() as int) =~= sorted@);
        v
    }

    /// Where the filter box goes in the list's `area`.
    pub fn filter_area(area: Rect) -> (r: Rect)
        requires
            area.fits(),
        ensures
            r == filter_area_spec(area),
    {
        let w = if area.width <= 30 {
            area.width
        } else {
            30
        };
        Rect { x: area.x + (area.width - w), y: area.y, width: w, height: 3 }
    }

    /// The text of the filter box: `"/{query}"`.
    pub fn filter_text(&self) -> (s: String)
        ensures
            s@ == seq!['/'] + self.search_input_spec(),
    {
        let mut out: Vec<char> = Vec::new();
        out.push('/');
        push_str(&mut out, self.search_input.as_str());
        string_from_chars(&out)
    }

    /// The search state.
    pub fn search_state(&self) -> (s: SearchState)
        ensures
            s == self.search_state_spec(),
    {
        self.search_state
    }

    /// Whether a query is being typed.
    pub fn is_filter_input_active(&self) -> (r: bool)
        ensures
            r == (self.search_state_spec() == SearchState::Searching),
    {
        self.search_state == SearchState::Searching
    }

    /// Ends the search: no query, no filtered rows.
    pub fn clear_search(&mut self)
        ensures
            final(self).search_state_spec() == SearchState::NoSearch,
            final(self).search_input_spec() == Seq::<char>::empty(),
            final(self).filtered_spec() == Seq::<CollectProcessData>::empty(),
            final(self).table_spec() == old(self).table_spec(),
            final(self).sort_column_spec() == old(self).sort_column_spec(),
            final(self).sort_order_spec() == old(self).sort_order_spec(),
    {
        self.search_input = String::new();
        self.filtered_table.clear();
        self.search_state = SearchState::NoSearch;
    }

    /// Starts typing a new query.
    pub fn start_search(&mut self)
        ensures
            final(self).search_state_spec() == SearchState::Searching,
            final(self).search_input_spec() == Seq::<char>::empty(),
            final(self).filtered_spec() == old(self).filtered_spec(),
            final(self).table_spec() == old(self).table_spec(),
            final(self).sort_column_spec() == old(self).sort_column_spec(),
            final(self).sort_order_spec() == old(self).sort_order_spec(),
    {
        self.search_state = SearchState::Searching;
        self.search_input = String::new();
    }

    /// Keeps the typed filter in place.
    pub fn keep_filter(&mut self)
        ensures
            final(self).search_state_spec() == SearchState::FilterApplied,
            final(self).search_input_spec() == old(self).search_input_spec(),
            final(self).filtered_spec() == old(self).filtered_spec(),
            final(self).table_spec() == old(self).table_spec(),
            final(self).sort_column_spec() == old(self).sort_column_spec(),
            final(self).sort_order_spec() == old(self).sort_order_spec(),
    {
        self.search_state = SearchState::FilterApplied;
    }

    /// Appends a character to the query and filters again.
    pub fn type_char(&mut self, c: char)
        ensures
            final(self).search_input_spec() == old(self).search_input_spec().push(c),
            final(self).filtered_spec() == filtered(old(self).table_spec(), old(self).search_input_spec().push(c)),
            final(self).table_spec() == Seq::<CollectProcessData>::empty(),
            final(self).search_state_spec() == old(self).search_state_spec(),
            final(self).sort_column_spec() == old(self).sort_column_spec(),
            final(self).sort_order_spec() == old(self).sort_order_spec(),
    {
        push_char(&mut self.search_input, c);
        self.apply_filter();
    }

    /// Removes the last character of the query, if any, and filters again.
    pub fn erase_char(&mut self)
        ensures
            final(self).search_input_spec() == (if old(self).search_input_spec().len() == 0 {
                old(self).search_input_spec()
            } else {
                old(self).search_input_spec().drop_last()
            }),
            final(self).filtered_spec() == filtered(old(self).table_spec(), final(self).search_input_spec()),
            final(self).table_spec() == Seq::<CollectProcessData>::empty(),
            final(self).search_state_spec() == old(self).search_state_spec(),
            final(self).sort_column_spec() == old(self).sort_column_spec(),
            final(self).sort_order_spec() == old(self).sort_order_spec(),
    {
        let _ = pop_char(&mut self.search_input);
        self.apply_filter();
    }
}

/// Filtering keeps exactly the rows of the table whose program or command,
/// in lowercase, starts with the lowercase query, and nothing else.
pub proof fn lemma_filter_by_either_name(table: Seq<CollectProcessData>, input: Seq<char>)
    ensures
        forall|i: int|
            0 <= i < table.len() && (lowercase(input).is_prefix_of(lowercase(table[i].program@))
                || lowercase(input).is_prefix_of(lowercase(table[i].command@))) ==> filtered(
                table,
                input,
            ).contains(#[trigger] table[i]),
        forall|j: int|
            0 <= j < filtered(table, input).len() ==> {
                let p = #[trigger] filtered(table, input)[j];
                &&& table.contains(p)
                &&& lowercase(input).is_prefix_of(lowercase(p.program@)) || lowercase(
                    input,
                ).is_prefix_of(lowercase(p.command@))
            },
{
    let q = lowercase(input);
    let pred = |p: CollectProcessData| matches_query(p, q);
    assert forall|i: int|
        0 <= i < table.len() && (q.is_prefix_of(lowercase(table[i].program@)) || q.is_prefix_of(
            lowercase(table[i].command@),
        )) implies filtered(table, input).contains(#[trigger] table[i]) by {
        table.lemma_filter_contains(pred, i);
    }
    assert forall|j: int| 0 <= j < filtered(table, input).len() implies {
        let p = #[trigger] filtered(table, input)[j];
        &&& table.contains(p)
        &&& q.is_prefix_of(lowercase(p.program@)) || q.is_prefix_of(lowercase(p.command@))
    } by {
        let p = filtered(table, input)[j];
        table.lemma_filter_pred(pred, j);
        assert(table.filter(pred).contains(p));
        table.lemma_filter_contains_rev(pred, p);
    }
}

} // verus!
