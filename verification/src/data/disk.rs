//! The disk table's data: the listed disks, sorted by mount point, with
//! the I/O totals of all processes.

use vstd::prelude::*;
use crate::order::{
    chars_le, chars_start_with, has_infix, has_prefix, lemma_lex_refl, lemma_lex_total,
    lemma_lex_trans, lex_le, str_contains,
};
use crate::platform::Platform;
use crate::text::str_chars;

verus! {

/// One disk as the system lists it.
pub struct DiskRecord {
    pub name: String,
    pub file_system: String,
    pub mount_point: String,
    pub total_space: u64,
    pub available_space: u64,
}

/// The disks the table shows. On Linux: block devices, named `/dev/...`.
/// On macOS: those with some space that are neither system volumes
/// (mounted under `/System/Volumes/`, `/private/var/` or `/dev`) nor disk
/// images.
pub open spec fn is_listed(d: DiskRecord, platform: Platform) -> bool {
    match platform {
        Platform::Linux => has_prefix(d.name@, "/dev/"@),
        Platform::MacOs => {
            &&& !has_prefix(d.mount_point@, "/System/Volumes/"@)
            &&& !has_prefix(d.mount_point@, "/private/var/"@)
            &&& !has_prefix(d.mount_point@, "/dev"@)
            &&& !has_infix(d.name@, "disk image"@)
            &&& d.total_space > 0
        },
    }
}

/// The listed disks, in their order.
pub open spec fn listed(ds: Seq<DiskRecord>, platform: Platform) -> Seq<DiskRecord> {
    ds.filter(|d: DiskRecord| is_listed(d, platform))
}

/// Whether the table shows a disk.
fn disk_listed(d: &DiskRecord, platform: Platform) -> (r: bool)
    ensures
        r == is_listed(*d, platform),
{
    match platform {
        Platform::Linux => {
            let name = str_chars(d.name.as_str());
            let dev = str_chars("/dev/");
            chars_start_with(&name, &dev)
        },
        Platform::MacOs => {
            let mount = str_chars(d.mount_point.as_str());
            let a = str_chars("/System/Volumes/");
            let b = str_chars("/private/var/");
            let c = str_chars("/dev");
            !chars_start_with(&mount, &a) && !chars_start_with(&mount, &b) && !chars_start_with(
                &mount,
                &c,
            ) && !str_contains(d.name.as_str(), "disk image") && d.total_space > 0
        },
    }
}

/// The disks mounted at `k`, in their order.
pub open spec fn with_mount(ds: Seq<DiskRecord>, k: Seq<char>) -> Seq<DiskRecord> {
    ds.filter(|d: DiskRecord| d.mount_point@ == k)
}

/// The disks are in order of their mount points.
pub open spec fn sorted_by_mount(ds: Seq<DiskRecord>) -> bool {
    forall|i: int, j: int|
        0 <= i < j < ds.len() ==> lex_le(#[trigger] ds[i].mount_point@, #[trigger] ds[j].mount_point@)
}

/// `out` is `input` sorted by mount point, disks with equal mount points
/// keeping their order.
pub open spec fn stable_sorted_by_mount(out: Seq<DiskRecord>, input: Seq<DiskRecord>) -> bool {
    &&& sorted_by_mount(out)
    &&& forall|k: Seq<char>| #[trigger] with_mount(out, k) == with_mount(input, k)
}

/// A copy of a disk record.
fn copy_record(d: &DiskRecord) -> (r: DiskRecord)
    ensures
        r == *d,
{
    DiskRecord {
        name: d.name.clone(),
        file_system: d.file_system.clone(),
        mount_point: d.mount_point.clone(),
        total_space: d.total_space,
        available_space: d.available_space,
    }
}

proof fn lemma_with_mount_none(s: Seq<DiskRecord>, k: Seq<char>)
    requires
        forall|i: int| 0 <= i < s.len() ==> s[i].mount_point@ != k,
    ensures
        with_mount(s, k) == Seq::<DiskRecord>::empty(),
    decreases s.len(),
{
    reveal(Seq::filter);
    if s.len() > 0 {
        lemma_with_mount_none(s.drop_last(), k);
    }
}

proof fn lemma_with_mount_single(x: DiskRecord, k: Seq<char>)
    ensures
        with_mount(seq![x], k) == (if x.mount_point@ == k {
            seq![x]
        } else {
            Seq::<DiskRecord>::empty()
        }),
{
    reveal(Seq::filter);
    assert(seq![x].drop_last() =~= Seq::<DiskRecord>::empty());
    assert(with_mount(Seq::<DiskRecord>::empty(), k) =~= Seq::<DiskRecord>::empty());
}

/// Sorts disks by mount point, keeping the order of equal mount points.
fn sort_by_mount(input: &Vec<DiskRecord>) -> (out: Vec<DiskRecord>)
    ensures
        out@.len() == input@.len(),
        stable_sorted_by_mount(out@, input@),
{
    let mut out: Vec<DiskRecord> = Vec::new();
    let mut keys: Vec<Vec<char>> = Vec::new();
    let n = input.len();
    proof {
        assert(input@.take(0) =~= Seq::<DiskRecord>::empty());
        assert forall|k: Seq<char>| #[trigger] with_mount(out@, k) == with_mount(input@.take(0), k) by {
            assert(out@ =~= Seq::<DiskRecord>::empty());
        }
    }
    for i in 0..n
        invariant
            n == input.len(),
            out.len() == i,
            keys.len() == out.len(),
            forall|j: int| 0 <= j < out.len() ==> #[trigger] keys@[j]@ == out@[j].mount_point@,
            sorted_by_mount(out@),
            forall|k: Seq<char>| #[trigger] with_mount(out@, k) == with_mount(input@.take(i as int), k),
    {
        let x = copy_record(&input[i]);
        let key = str_chars(x.mount_point.as_str());
        let mut p: usize = 0;
        while p < out.len() && chars_le(&keys[p], &key)
            invariant
                p <= out.len(),
                keys.len() == out.len(),
                forall|j: int| 0 <= j < out.len() ==> #[trigger] keys@[j]@ == out@[j].mount_point@,
                key@ == x.mount_point@,
                forall|j: int| 0 <= j < p ==> lex_le(#[trigger] out@[j].mount_point@, x.mount_point@),
            decreases out.len() - p,
        {
            p = p + 1;
        }
        let ghost old_out = out@;
        let ghost xm = x.mount_point@;
        proof {
            assert(p < old_out.len() ==> !lex_le(old_out[p as int].mount_point@, xm));
            assert forall|j: int| p <= j < old_out.len() implies !lex_le(
                #[trigger] old_out[j].mount_point@,
                xm,
            ) by {
                if lex_le(old_out[j].mount_point@, xm) {
                    if j > p {
                        lemma_lex_trans(old_out[p as int].mount_point@, old_out[j].mount_point@, xm);
                    }
                }
            }
        }
        out.insert(p, x);
        keys.insert(p, key);
        proof {
            let new_out = out@;
            assert(new_out =~= old_out.take(p as int) + seq![x] + old_out.skip(p as int));
            assert forall|a: int, b: int| 0 <= a < b < new_out.len() implies lex_le(
                #[trigger] new_out[a].mount_point@,
                #[trigger] new_out[b].mount_point@,
            ) by {
                let ma = new_out[a].mount_point@;
                let mb = new_out[b].mount_point@;
                if b < p {
                    assert(new_out[a] == old_out[a] && new_out[b] == old_out[b]);
                } else if b == p {
                    assert(new_out[a] == old_out[a]);
                } else if a < p {
                    assert(new_out[a] == old_out[a] && new_out[b] == old_out[b - 1]);
                } else if a == p {
                    assert(new_out[b] == old_out[b - 1]);
                    assert(!lex_le(old_out[b - 1].mount_point@, xm));
                    lemma_lex_total(old_out[b - 1].mount_point@, xm);
                } else {
                    assert(new_out[a] == old_out[a - 1] && new_out[b] == old_out[b - 1]);
                }
            }
            assert(input@.take(i + 1) =~= input@.take(i as int).push(x));
            assert forall|k: Seq<char>| #[trigger] with_mount(out@, k) == with_mount(
                input@.take(i + 1),
                k,
            ) by {
                let pre = old_out.take(p as int);
                let post = old_out.skip(p as int);
                let pred = |d: DiskRecord| d.mount_point@ == k;
                Seq::filter_distributes_over_add(pre + seq![x], post, pred);
                Seq::filter_distributes_over_add(pre, seq![x], pred);
                assert(old_out =~= pre + post);
                Seq::filter_distributes_over_add(pre, post, pred);
                input@.take(i as int).lemma_filter_push(x, pred);
                lemma_with_mount_single(x, k);
                if xm == k {
                    assert forall|j: int| 0 <= j < post.len() implies post[j].mount_point@ != k by {
                        assert(post[j] == old_out[p + j]);
                        lemma_lex_refl(k);
                    }
                    lemma_with_mount_none(post, k);
                    assert(with_mount(out@, k) =~= with_mount(old_out, k).push(x));
                } else {
                    assert(with_mount(out@, k) =~= with_mount(old_out, k));
                }
            }
            assert forall|j: int| 0 <= j < out.len() implies #[trigger] keys@[j]@
                == out@[j].mount_point@ by {
                if j < p {
                } else if j == p {
                } else {
                }
            }
        }
    }
    proof {
        assert(input@.take(n as int) =~= input@);
    }
    out
}

/// The disk table: one entry per listed disk in each column.
pub struct DiskData {
    pub disk_name: Vec<String>,
    pub filesytem: Vec<String>,
    pub mount: Vec<String>,
    pub total: Vec<u64>,
    pub available: Vec<u64>,
    pub curr_read: Vec<u64>,
    pub curr_write: Vec<u64>,
}

impl DiskData {
    /// All columns have one entry per disk.
    pub open spec fn aligned(self) -> bool {
        let n = self.disk_name.len();
        &&& self.filesytem.len() == n
        &&& self.mount.len() == n
        &&& self.total.len() == n
        &&& self.available.len() == n
        &&& self.curr_read.len() == n
        &&& self.curr_write.len() == n
    }

    /// The disks of the table, row by row.
    pub open spec fn rows(self) -> Seq<DiskRecord> {
        Seq::new(
            self.disk_name.len() as nat,
            |i: int|
                DiskRecord {
                    name: self.disk_name[i],
                    file_system: self.filesytem[i],
                    mount_point: self.mount[i],
                    total_space: self.total[i],
                    available_space: self.available[i],
                },
        )
    }

    /// An empty table.
    pub fn new() -> (d: Self)
        ensures
            d.aligned(),
            d.disk_name.len() == 0,
    {
        DiskData {
            disk_name: Vec::new(),
            filesytem: Vec::new(),
            mount: Vec::new(),
            total: Vec::new(),
            available: Vec::new(),
            curr_read: Vec::new(),
            curr_write: Vec::new(),
        }
    }

    /// Fills the table: the block devices among `disks`, sorted by mount
    /// point (equal mount points keep their order), each with the I/O
    /// totals `total_read` and `total_write`.
    pub fn collect_all(
        &mut self,
        disks: &Vec<DiskRecord>,
        total_read: u64,
        total_write: u64,
        platform: Platform,
    )
        ensures
            final(self).aligned(),
            final(self).disk_name.len() == listed(disks@, platform).len(),
            stable_sorted_by_mount(final(self).rows(), listed(disks@, platform)),
            final(self).curr_read@ == Seq::new(final(self).disk_name.len() as nat, |_i: int| total_read),
            final(self).curr_write@ == Seq::new(final(self).disk_name.len() as nat, |_i: int| total_write),
    {
        let mut kept: Vec<DiskRecord> = Vec::new();
        for i in 0..disks.len()
            invariant
                kept@ == listed(disks@.take(i as int), platform),
        {
            proof {
                assert(disks@.take(i + 1) =~= disks@.take(i as int).push(disks@[i as int]));
                disks@.take(i as int).lemma_filter_push(
                    disks@[i as int],
                    |d: DiskRecord| is_listed(d, platform),
                );
            }
            if disk_listed(&disks[i], platform) {
                kept.push(copy_record(&disks[i]));
            }
        }
        proof {
            assert(disks@.take(disks.len() as int) =~= disks@);
        }
        let sorted = sort_by_mount(&kept);
        let mut disk_name: Vec<String> = Vec::new();
        let mut filesytem: Vec<String> = Vec::new();
        let mut mount: Vec<String> = Vec::new();
        let mut total: Vec<u64> = Vec::new();
        let mut available: Vec<u64> = Vec::new();
        let mut curr_read: Vec<u64> = Vec::new();
        let mut curr_write: Vec<u64> = Vec::new();
        for i in 0..sorted.len()
            invariant
                disk_name.len() == i,
                filesytem.len() == i,
                mount.len() == i,
                total.len() == i,
                available.len() == i,
                curr_read.len() == i,
                curr_write.len() == i,
                forall|j: int| 0 <= j < i ==> #[trigger] disk_name@[j] == sorted@[j].name,
                forall|j: int| 0 <= j < i ==> #[trigger] filesytem@[j] == sorted@[j].file_system,
                forall|j: int| 0 <= j < i ==> #[trigger] mount@[j] == sorted@[j].mount_point,
                forall|j: int| 0 <= j < i ==> #[trigger] total@[j] == sorted@[j].total_space,
                forall|j: int| 0 <= j < i ==> #[trigger] available@[j] == sorted@[j].available_space,
                forall|j: int| 0 <= j < i ==> #[trigger] curr_read@[j] == total_read,
                forall|j: int| 0 <= j < i ==> #[trigger] curr_write@[j] == total_write,
        {
            disk_name.push(sorted[i].name.clone());
            filesytem.push(sorted[i].file_system.clone());
            mount.push(sorted[i].mount_point.clone());
            total.push(sorted[i].total_space);
            available.push(sorted[i].available_space);
            curr_read.push(total_read);
            curr_write.push(total_write);
        }
        self.disk_name = disk_name;
        self.filesytem = filesytem;
        self.mount = mount;
        self.total = total;
        self.available = available;
        self.curr_read = curr_read;
        self.curr_write = curr_write;
        proof {
            assert(self.rows() =~= sorted@);
            assert(self.curr_read@ =~= Seq::new(self.disk_name.len() as nat, |_i: int| total_read));
            assert(self.curr_write@ =~= Seq::new(self.disk_name.len() as nat, |_i: int| total_write));
        }
    }

    /// The sum of the given per-process byte counts, or `None` when it
    /// does not fit in 64 bits.
    pub fn total_io(values: &Vec<u64>) -> (r: Option<u64>)
        ensures
            r matches Some(t) ==> t == sum_u64(values@),
            r is None <==> sum_u64(values@) > u64::MAX,
    {
        let mut t: u64 = 0;
        for i in 0..values.len()
            invariant
                t == sum_u64(values@.take(i as int)),
        {
            proof {
                assert(values@.take(i + 1).drop_last() =~= values@.take(i as int));
                lemma_sum_mono(values@, i + 1);
            }
            match t.checked_add(values[i]) {
                Some(s) => t = s,
                None => {
                    proof {
                        lemma_sum_mono(values@, values.len() as int);
                        assert(values@.take(values.len() as int) =~= values@);
                    }
                    return None;
                },
            }
        }
        proof {
            assert(values@.take(values.len() as int) =~= values@);
        }
        Some(t)
    }
}

/// The sum of a sequence of counts.
pub open spec fn sum_u64(s: Seq<u64>) -> nat
    decreases s.len(),
{
    if s.len() == 0 {
        0
    } else {
        sum_u64(s.drop_last()) + s.last() as nat
    }
}

proof fn lemma_sum_mono(s: Seq<u64>, i: int)
    requires
        0 <= i <= s.len(),
    ensures
        forall|j: int| 0 <= j <= i ==> sum_u64(#[trigger] s.take(j)) <= sum_u64(s.take(i)),
    decreases i,
{
    if i > 0 {
        lemma_sum_mono(s, i - 1);
        assert(s.take(i).drop_last() =~= s.take(i - 1));
    }
}

} // verus!
