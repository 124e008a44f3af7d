//! The per-core usage histories and the disk usage table (older layout).

use vstd::prelude::*;
use crate::data::disk::{listed, stable_sorted_by_mount, DiskData, DiskRecord};
use crate::data::info::SystemInfo;
use crate::platform::Platform;
use crate::draw::widgets::disk_table::{cells_view, row_cells, table_height};
use crate::tools::units::bytes_text;
use crate::draw::widgets::cpu_graph::{chunk_rows, grid_layout, grid_rows};

pub use crate::draw::widgets::cpu_graph::ColorScheme;

verus! {

/// A history cut to its newest `max` samples.
pub open spec fn trimmed(h: Seq<u64>, max: nat) -> Seq<u64> {
    if h.len() > max {
        h.subrange(h.len() - max, h.len() as int)
    } else {
        h
    }
}

/// The newest sample of a history, zero (the bits of `0.0`) without any.
pub open spec fn newest_or_zero(h: Seq<u64>) -> u64 {
    if h.len() == 0 {
        0
    } else {
        h.last()
    }
}

/// Each core with its newest sample.
pub open spec fn latest_of(hs: Seq<Seq<u64>>) -> Seq<(usize, u64)> {
    Seq::new(hs.len(), |i: int| (i as usize, newest_or_zero(hs[i])))
}

/// How many samples a core keeps in a grid `width` cells wide: its bar's
/// width, at least ten.
pub open spec fn points_kept_spec(width: usize) -> usize {
    let bar = grid_layout(width).1;
    if bar >= 10 {
        bar
    } else {
        10
    }
}

/// The usage history of each core, as `f64` bit patterns, newest last.
pub struct MultiCoreGraph {
    cores: Vec<Vec<u64>>,
    color_scheme: ColorScheme,
}

impl MultiCoreGraph {
    /// The histories, core by core.
    pub closed spec fn histories(self) -> Seq<Seq<u64>> {
        self.cores@.map_values(|v: Vec<u64>| v@)
    }

    /// The colour scheme.
    pub closed spec fn scheme_spec(self) -> ColorScheme {
        self.color_scheme
    }

    /// A graph of `num_cores` cores without samples.
    pub fn new(num_cores: usize, color_scheme: ColorScheme) -> (g: Self)
        ensures
            g.histories() == Seq::new(num_cores as nat, |_i: int| Seq::<u64>::empty()),
            g.scheme_spec() == color_scheme,
    {
        let mut cores: Vec<Vec<u64>> = Vec::new();
        for i in 0..num_cores
            invariant
                cores@.len() == i,
                forall|j: int| 0 <= j < i ==> #[trigger] cores@[j]@ == Seq::<u64>::empty(),
        {
            let fresh: Vec<u64> = Vec::new();
            cores.push(fresh);
        }
        assert(cores@.map_values(|v: Vec<u64>| v@) =~= Seq::new(num_cores as nat, |_i: int| Seq::<u64>::empty()));
        MultiCoreGraph { cores, color_scheme }
    }

    /// Adds a sample to a core's history; an unknown core is ignored.
    pub fn push(&mut self, core_index: usize, usage_bits: u64)
        ensures
            final(self).histories() == (if core_index < old(self).histories().len() {
                old(self).histories().update(
                    core_index as int,
                    old(self).histories()[core_index as int].push(usage_bits),
                )
            } else {
                old(self).histories()
            }),
            final(self).scheme_spec() == old(self).scheme_spec(),
    {
        if core_index < self.cores.len() {
            let mut h = copy_history(&self.cores[core_index]);
            h.push(usage_bits);
            let ghost before = self.cores@;
            self.cores.set(core_index, h);
            assert(self.cores@.map_values(|v: Vec<u64>| v@) =~= before.map_values(|v: Vec<u64>| v@).update(
                core_index as int,
                before[core_index as int]@.push(usage_bits),
            ));
        }
    }

    /// Cuts every history to its newest `max_points` samples.
    pub fn trim_to_width(&mut self, max_points: usize)
        ensures
            final(self).histories() == old(self).histories().map_values(|h: Seq<u64>| trimmed(h, max_points as nat)),
            final(self).scheme_spec() == old(self).scheme_spec(),
    {
        let ghost start = self.histories();
        let n = self.cores.len();
        for i in 0..n
            invariant
                n == self.cores.len(),
                start.len() == n,
                self.scheme_spec() == old(self).scheme_spec(),
                start == old(self).histories(),
                forall|j: int| 0 <= j < i ==> #[trigger] self.cores@[j]@ == trimmed(start[j], max_points as nat),
                forall|j: int| i <= j < n ==> #[trigger] self.cores@[j]@ == start[j],
        {
            let len = self.cores[i].len();
            if len > max_points {
                let kept = copy_range(&self.cores[i], len - max_points, len);
                let ghost before = self.cores@;
                self.cores.set(i, kept);
                assert forall|j: int| 0 <= j < n && j != i implies #[trigger] self.cores@[j] == before[j] by {}
            }
        }
        assert(self.histories() =~= start.map_values(|h: Seq<u64>| trimmed(h, max_points as nat)));
    }

    /// Each core with its newest sample, zero without any.
    pub fn latest(&self) -> (v: Vec<(usize, u64)>)
        ensures
            v@ == latest_of(self.histories()),
    {
        let mut v: Vec<(usize, u64)> = Vec::new();
        for i in 0..self.cores.len()
            invariant
                v@ == latest_of(self.histories()).take(i as int),
                self.histories().len() == self.cores.len(),
        {
            let h = &self.cores[i];
            let u = if h.len() == 0 {
                0
            } else {
                h[h.len() - 1]
            };
            v.push((i, u));
            assert(latest_of(self.histories()).take(i + 1) =~= latest_of(self.histories()).take(i as int).push((i, u)));
        }
        assert(latest_of(self.histories()).take(self.cores.len() as int) =~= latest_of(self.histories()));
        v
    }

    /// How many samples each core keeps in a grid `width` cells wide.
    pub fn points_kept(width: usize) -> (n: usize)
        ensures
            n == points_kept_spec(width),
    {
        let (_per_row, bar) = crate::draw::widgets::cpu_graph::MultiCoreGraph::grid_layout(width);
        if bar >= 10 {
            bar
        } else {
            10
        }
    }

    /// The cores with their newest samples, row by row, of a grid `width`
    /// cells wide and `height` lines tall.
    pub fn generate_core_grid(&self, width: usize, height: usize) -> (rows: Vec<Vec<(usize, u64)>>)
        ensures
            rows@.len() == grid_rows(latest_of(self.histories()), grid_layout(width).0 as int, height as int).len(),
            forall|r: int| 0 <= r < rows@.len() ==> #[trigger] rows@[r]@ == grid_rows(
                latest_of(self.histories()),
                grid_layout(width).0 as int,
                height as int,
            )[r],
    {
        let (per_row, _bar) = crate::draw::widgets::cpu_graph::MultiCoreGraph::grid_layout(width);
        let e = self.latest();
        chunk_rows(&e, per_row, height)
    }

    /// The colour scheme.
    pub fn color_scheme(&self) -> (c: ColorScheme)
        ensures
            c == self.scheme_spec(),
    {
        self.color_scheme
    }
}

/// A copy of a history.
fn copy_history(h: &Vec<u64>) -> (r: Vec<u64>)
    ensures
        r@ == h@,
{
    copy_range(h, 0, h.len())
}

/// The samples of `h` from `lo` up to `hi`.
fn copy_range(h: &Vec<u64>, lo: usize, hi: usize) -> (r: Vec<u64>)
    requires
        lo <= hi <= h.len(),
    ensures
        r@ == h@.subrange(lo as int, hi as int),
{
    let mut r: Vec<u64> = Vec::new();
    let mut k = lo;
    while k < hi
        invariant
            lo <= k <= hi <= h.len(),
            r@ == h@.subrange(lo as int, k as int),
        decreases hi - k,
    {
        r.push(h[k]);
        assert(h@.subrange(lo as int, k + 1) =~= h@.subrange(lo as int, k as int).push(h@[k as int]));
        k = k + 1;
    }
    r
}

/// After a sample is added and the histories are cut to a positive
/// width, that sample is the core's newest, and no history is longer than
/// the width.
pub proof fn lemma_trim_keeps_newest(hs: Seq<Seq<u64>>, core: int, sample: u64, max: nat)
    requires
        0 <= core < hs.len(),
        max >= 1,
    ensures
        ({
            let after = hs.update(core, hs[core].push(sample)).map_values(|h: Seq<u64>| trimmed(h, max));
            &&& newest_or_zero(after[core]) == sample
            &&& forall|i: int| 0 <= i < after.len() ==> #[trigger] after[i].len() <= max
        }),
{
}

/// One row of the disk table.
#[derive(Debug)]
pub struct DiskDisplayEntry {
    pub name: String,
    pub filesystem: String,
    pub mount: String,
    pub total: u64,
    pub available: u64,
    pub io_read: u64,
    pub io_write: u64,
}

/// The disk table: its rows.
pub struct DiskGraph {
    entries: Vec<DiskDisplayEntry>,
    sys_info: SystemInfo,
}

/// The row `i` of a disk table.
pub open spec fn entry_matches(e: DiskDisplayEntry, d: DiskData, i: int) -> bool {
    &&& e.name == d.disk_name[i]
    &&& e.filesystem == d.filesytem[i]
    &&& e.mount == d.mount[i]
    &&& e.total == d.total[i]
    &&& e.available == d.available[i]
    &&& e.io_read == d.curr_read[i]
    &&& e.io_write == d.curr_write[i]
}

impl DiskGraph {
    /// The rows.
    pub closed spec fn entries_spec(self) -> Seq<DiskDisplayEntry> {
        self.entries@
    }

    /// A table without rows.
    pub fn new() -> (g: Self)
        ensures
            g.entries_spec().len() == 0,
    {
        DiskGraph { entries: Vec::new(), sys_info: SystemInfo }
    }

    /// The height: a row per disk, the header and the two borders, at
    /// least four.
    pub fn get_height(&self) -> (h: u16)
        requires
            self.entries_spec().len() % 0x1_0000 + 3 <= u16::MAX,
        ensures
            h == table_height(self.entries_spec().len()),
    {
        let n = (self.entries.len() % 0x1_0000) as u16;
        let h = n + 1 + 2;
        if h > 4 {
            h
        } else {
            4
        }
    }

    /// Refills `disk_data` from the given disks and I/O totals, then takes
    /// one row per disk from it.
    pub fn update(
        &mut self,
        disk_data: &mut DiskData,
        disks: &Vec<DiskRecord>,
        total_read: u64,
        total_write: u64,
        platform: Platform,
    )
        ensures
            final(disk_data).aligned(),
            final(disk_data).disk_name.len() == listed(disks@, platform).len(),
            stable_sorted_by_mount(final(disk_data).rows(), listed(disks@, platform)),
            final(self).entries_spec().len() == final(disk_data).disk_name.len(),
            forall|i: int|
                0 <= i < final(self).entries_spec().len() ==> entry_matches(
                    #[trigger] final(self).entries_spec()[i],
                    *final(disk_data),
                    i,
                ),
    {
        disk_data.collect_all(disks, total_read, total_write, platform);
        let mut entries: Vec<DiskDisplayEntry> = Vec::new();
        for i in 0..disk_data.disk_name.len()
            invariant
                disk_data.aligned(),
                entries.len() == i,
                forall|j: int| 0 <= j < i ==> entry_matches(#[trigger] entries@[j], *disk_data, j),
        {
            entries.push(
                DiskDisplayEntry {
                    name: disk_data.disk_name[i].clone(),
                    filesystem: disk_data.filesytem[i].clone(),
                    mount: disk_data.mount[i].clone(),
                    total: disk_data.total[i],
                    available: disk_data.available[i],
                    io_read: disk_data.curr_read[i],
                    io_write: disk_data.curr_write[i],
                },
            );
        }
        self.entries = entries;
    }

    /// The rows of the table, one per entry: name, file system, mount
    /// point, then the byte counts as `format_bytes` writes them.
    pub fn rows(&self) -> (rows: Vec<Vec<String>>)
        ensures
            rows@.len() == self.entries_spec().len(),
            forall|i: int| 0 <= i < rows@.len() ==> cells_view(#[trigger] rows@[i]@) == entry_row_text(self.entries_spec()[i]),
    {
        let mut rows: Vec<Vec<String>> = Vec::new();
        for i in 0..self.entries.len()
            invariant
                rows@.len() == i,
                forall|j: int| 0 <= j < i ==> cells_view(#[trigger] rows@[j]@) == entry_row_text(self.entries@[j]),
        {
            let e = &self.entries[i];
            rows.push(row_cells(&e.name, &e.filesystem, &e.mount, e.total, e.available, e.io_read, e.io_write));
        }
        rows
    }
}

/// The cells of a row of the table.
pub open spec fn entry_row_text(e: DiskDisplayEntry) -> Seq<Seq<char>> {
    seq![
        e.name@,
        e.filesystem@,
        e.mount@,
        bytes_text(e.total),
        bytes_text(e.available),
        bytes_text(e.io_read),
        bytes_text(e.io_write),
    ]
}

} // verus!
