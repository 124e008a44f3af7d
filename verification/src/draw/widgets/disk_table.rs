//! The disk table: its height and title.

use vstd::prelude::*;
use crate::data::disk::DiskData;
use crate::text::{push_str, string_from_chars};
use crate::tools::units::{bytes_text, format_bytes};

verus! {

/// The height of a table of `n` rows: `(n as u16 + 1 + 2).max(4)`.
pub open spec fn table_height(n: nat) -> u16 {
    let h = n % 0x1_0000 + 3;
    if h > 4 {
        h as u16
    } else {
        4
    }
}

/// The cells of row `i` of a disk table: name, file system, mount point,
/// then total, available, read and written bytes as `format_bytes` writes
/// them.
pub open spec fn disk_row_text(d: DiskData, i: int) -> Seq<Seq<char>> {
    seq![
        d.disk_name[i]@,
        d.filesytem[i]@,
        d.mount[i]@,
        bytes_text(d.total[i]),
        bytes_text(d.available[i]),
        bytes_text(d.curr_read[i]),
        bytes_text(d.curr_write[i]),
    ]
}

/// The characters of each cell.
pub open spec fn cells_view(row: Seq<String>) -> Seq<Seq<char>> {
    row.map_values(|c: String| c@)
}

/// The cells of a row, from its texts and byte counts.
pub fn row_cells(
    name: &String,
    filesystem: &String,
    mount: &String,
    total: u64,
    available: u64,
    read: u64,
    write: u64,
) -> (row: Vec<String>)
    ensures
        cells_view(row@) == seq![
            name@,
            filesystem@,
            mount@,
            bytes_text(total),
            bytes_text(available),
            bytes_text(read),
            bytes_text(write),
        ],
{
    let mut row: Vec<String> = Vec::new();
    row.push(name.clone());
    row.push(filesystem.clone());
    row.push(mount.clone());
    row.push(format_bytes(total));
    row.push(format_bytes(available));
    row.push(format_bytes(read));
    row.push(format_bytes(write));
    assert(cells_view(row@) =~= seq![
        name@,
        filesystem@,
        mount@,
        bytes_text(total),
        bytes_text(available),
        bytes_text(read),
        bytes_text(write),
    ]);
    row
}

/// The disk table widget.
pub struct DiskTable;

impl DiskTable {
    /// The disk table.
    pub fn new() -> (t: Self) {
        DiskTable
    }

    /// The height of the table: a row per disk, the header and the two
    /// borders (the count taken modulo 2^16), at least four.
    pub fn get_height(&self, disk_data: &DiskData) -> (h: u16)
        requires
            disk_data.disk_name.len() % 0x1_0000 + 3 <= u16::MAX,
        ensures
            h == table_height(disk_data.disk_name.len() as nat),
    {
        let n = (disk_data.disk_name.len() % 0x1_0000) as u16;
        let h = n + 1 + 2;
        if h > 4 {
            h
        } else {
            4
        }
    }

    /// The header cells.
    pub fn header() -> (v: Vec<&'static str>)
        ensures
            v@.len() == 7,
            v@[0]@ == "Disk"@ && v@[1]@ == "FS"@ && v@[2]@ == "Mount"@ && v@[3]@ == "Total"@
                && v@[4]@ == "Available"@ && v@[5]@ == "IO R"@ && v@[6]@ == "IO W"@,
    {
        vec!["Disk", "FS", "Mount", "Total", "Available", "IO R", "IO W"]
    }

    /// The rows of the table, one per disk.
    pub fn rows(disk_data: &DiskData) -> (rows: Vec<Vec<String>>)
        requires
            disk_data.aligned(),
        ensures
            rows@.len() == disk_data.disk_name.len(),
            forall|i: int| 0 <= i < rows@.len() ==> cells_view(#[trigger] rows@[i]@) == disk_row_text(*disk_data, i),
    {
        let mut rows: Vec<Vec<String>> = Vec::new();
        for i in 0..disk_data.disk_name.len()
            invariant
                disk_data.aligned(),
                rows@.len() == i,
                forall|j: int| 0 <= j < i ==> cells_view(#[trigger] rows@[j]@) == disk_row_text(*disk_data, j),
        {
            let row = row_cells(
                &disk_data.disk_name[i],
                &disk_data.filesytem[i],
                &disk_data.mount[i],
                disk_data.total[i],
                disk_data.available[i],
                disk_data.curr_read[i],
                disk_data.curr_write[i],
            );
            rows.push(row);
        }
        rows
    }

    /// The title: `"Kernel {version}"`.
    pub fn kernel_title(kernel: &str) -> (s: String)
        ensures
            s@ == "Kernel "@ + kernel@,
    {
        let mut out: Vec<char> = Vec::new();
        push_str(&mut out, "Kernel ");
        push_str(&mut out, kernel);
        string_from_chars(&out)
    }
}

} // verus!
