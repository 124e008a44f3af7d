//! The temperature list: which sensors it shows and its size.

use vstd::prelude::*;
use crate::order::{has_infix, str_contains};
use crate::draw::process_tree::str_len;
use crate::binary::{decode_f32, f32_from_bits, fmt_fixed, push_float_fixed};
use crate::text::{push_str, string_from_chars};
use crate::platform::Platform;

verus! {

/// A sensor reading: its label and, when the sensor gives one, the `f32`
/// bit pattern of its temperature in degrees Celsius.
pub type TempReading = (String, Option<u32>);

/// The label names a CPU sensor.
pub open spec fn is_cpu_label(l: Seq<char>) -> bool {
    has_infix(l, "coretemp"@) || has_infix(l, "Package id"@) || has_infix(l, "k10temp"@)
        || has_infix(l, "Tdie"@)
}

/// The label names an NVMe drive sensor.
pub open spec fn is_disk_label(l: Seq<char>) -> bool {
    has_infix(l, "nvme"@)
}

/// The label names a wireless card sensor.
pub open spec fn is_nic_label(l: Seq<char>) -> bool {
    has_infix(l, "iwlwifi"@)
}

/// The names the list shows: CPU, disk and network sensor.
pub type ShownNames = (Option<Seq<char>>, Option<Seq<char>>, Option<Seq<char>>);

/// The names after looking at one more label: the first free role it fits
/// takes it.
pub open spec fn name_step(n: ShownNames, l: Seq<char>) -> ShownNames {
    if n.0 is None && is_cpu_label(l) {
        (Some(l), n.1, n.2)
    } else if n.1 is None && is_disk_label(l) {
        (n.0, Some(l), n.2)
    } else if n.2 is None && is_nic_label(l) {
        (n.0, n.1, Some(l))
    } else {
        n
    }
}

/// The names after looking at the labels in order.
pub open spec fn names_after(n: ShownNames, labels: Seq<TempReading>) -> ShownNames
    decreases labels.len(),
{
    if labels.len() == 0 {
        n
    } else {
        name_step(names_after(n, labels.drop_last()), labels.last().0@)
    }
}

/// What the macOS rules track: the names, whether a CPU and a disk sensor
/// were found in this pass, and how many lines were added.
pub type MacNames = (ShownNames, bool, bool, nat);

/// The macOS pass starts from the names it is given, nothing found yet.
pub open spec fn mac_start(n: ShownNames) -> MacNames {
    (n, false, false, 0)
}

/// The macOS pass after one more reading: a reading with a temperature
/// names the CPU if it is the first `tdie` one, else the disk if it is the
/// first `NAND` one.
pub open spec fn mac_name_step(s: MacNames, r: TempReading) -> MacNames {
    let l = r.0@;
    if r.1 is None {
        s
    } else if !s.1 && has_infix(l, "tdie"@) {
        ((Some(l), s.0.1, s.0.2), true, s.2, s.3 + 1)
    } else if !s.2 && has_infix(l, "NAND"@) {
        ((s.0.0, Some(l), s.0.2), s.1, true, s.3 + 1)
    } else {
        s
    }
}

/// The macOS pass after the readings in order.
pub open spec fn mac_names_after(s: MacNames, temps: Seq<TempReading>) -> MacNames
    decreases temps.len(),
{
    if temps.len() == 0 {
        s
    } else {
        mac_name_step(mac_names_after(s, temps.drop_last()), temps.last())
    }
}

/// The lines added over a prefix of the readings are no more than over all
/// of them.
proof fn lemma_mac_count_grows(s: MacNames, temps: Seq<TempReading>, k: int)
    requires
        0 <= k <= temps.len(),
    ensures
        mac_names_after(s, temps.take(k)).3 <= mac_names_after(s, temps).3,
    decreases temps.len() - k,
{
    if k < temps.len() {
        lemma_mac_count_grows(s, temps, k + 1);
        assert(temps.take(k + 1).drop_last() =~= temps.take(k));
    } else {
        assert(temps.take(k) =~= temps);
    }
}

/// The number of names that are set.
pub open spec fn name_count(n: ShownNames) -> nat {
    (if n.0 is Some { 1nat } else { 0 }) + (if n.1 is Some { 1nat } else { 0 }) + (if n.2 is Some {
        1nat
    } else {
        0
    })
}

/// The view of an optional name.
pub open spec fn opt_view(o: Option<String>) -> Option<Seq<char>> {
    match o {
        Some(s) => Some(s@),
        None => None,
    }
}

/// The temperature list: the sensors it shows and how many lines it has.
pub struct TempWidget {
    cpu_name: Option<String>,
    disk_name: Option<String>,
    nic_name: Option<String>,
    line_count: u8,
}

impl TempWidget {
    /// The line count is the number of shown sensors.
    pub closed spec fn wf(self) -> bool {
        self.line_count as nat == name_count(self.names())
    }

    /// The shown names.
    pub closed spec fn names(self) -> ShownNames {
        (opt_view(self.cpu_name), opt_view(self.disk_name), opt_view(self.nic_name))
    }

    /// The number of lines.
    pub closed spec fn line_count_spec(self) -> u8 {
        self.line_count
    }

    /// No sensor shown yet.
    pub fn new() -> (w: Self)
        ensures
            w.names() == (None::<Seq<char>>, None::<Seq<char>>, None::<Seq<char>>),
            w.line_count_spec() == 0,
            w.wf(),
    {
        TempWidget { cpu_name: None, disk_name: None, nic_name: None, line_count: 0 }
    }

    /// Chooses the sensors to show from the readings, in order. On Linux:
    /// the first CPU, NVMe and wireless sensors, each label taking one role
    /// at most. On macOS: among the readings that have a temperature, the
    /// first `tdie` sensor as CPU and the first `NAND` sensor as disk, each
    /// counting one more line.
    pub fn filter(&mut self, temps: &Vec<TempReading>, platform: Platform)
        requires
            platform == Platform::Linux ==> old(self).wf(),
            platform == Platform::MacOs ==> old(self).line_count_spec() + mac_names_after(
                mac_start(old(self).names()),
                temps@,
            ).3 <= u8::MAX,
        ensures
            platform == Platform::Linux ==> {
                &&& final(self).wf()
                &&& final(self).names() == names_after(old(self).names(), temps@)
                &&& final(self).line_count_spec() as nat == name_count(final(self).names())
            },
            platform == Platform::MacOs ==> {
                let m = mac_names_after(mac_start(old(self).names()), temps@);
                &&& final(self).names() == m.0
                &&& final(self).line_count_spec() == old(self).line_count_spec() + m.3
            },
    {
        match platform {
            Platform::Linux => self.filter_linux(temps),
            Platform::MacOs => self.filter_mac(temps),
        }
    }

    fn filter_linux(&mut self, temps: &Vec<TempReading>)
        requires
            old(self).wf(),
        ensures
            final(self).wf(),
            final(self).names() == names_after(old(self).names(), temps@),
            final(self).line_count_spec() as nat == name_count(final(self).names()),
    {
        for i in 0..temps.len()
            invariant
                self.names() == names_after(old(self).names(), temps@.take(i as int)),
                self.line_count as nat == name_count(self.names()),
        {
            proof {
                assert(temps@.take(i + 1).drop_last() =~= temps@.take(i as int));
                assert(temps@.take(i + 1).last() == temps@[i as int]);
            }
            let label = &temps[i].0;
            let l = label.as_str();
            if self.cpu_name.is_none() && (str_contains(l, "coretemp") || str_contains(
                l,
                "Package id",
            ) || str_contains(l, "k10temp") || str_contains(l, "Tdie")) {
                self.cpu_name = Some(label.clone());
                self.line_count = self.line_count + 1;
            } else if self.disk_name.is_none() && str_contains(l, "nvme") {
                self.disk_name = Some(label.clone());
                self.line_count = self.line_count + 1;
            } else if self.nic_name.is_none() && str_contains(l, "iwlwifi") {
                self.nic_name = Some(label.clone());
                self.line_count = self.line_count + 1;
            }
        }
        proof {
            assert(temps@.take(temps.len() as int) =~= temps@);
        }
    }

    fn filter_mac(&mut self, temps: &Vec<TempReading>)
        requires
            old(self).line_count_spec() + mac_names_after(mac_start(old(self).names()), temps@).3
                <= u8::MAX,
        ensures
            final(self).names() == mac_names_after(mac_start(old(self).names()), temps@).0,
            final(self).line_count_spec() == old(self).line_count_spec() + mac_names_after(
                mac_start(old(self).names()),
                temps@,
            ).3,
    {
        let mut has_cpu = false;
        let mut has_disk = false;
        let ghost start = mac_start(old(self).names());
        let ghost count0 = old(self).line_count_spec();
        for i in 0..temps.len()
            invariant
                start == mac_start(old(self).names()),
                count0 == old(self).line_count_spec(),
                count0 + mac_names_after(start, temps@).3 <= u8::MAX,
                ({
                    let m = mac_names_after(start, temps@.take(i as int));
                    &&& self.names() == m.0
                    &&& has_cpu == m.1
                    &&& has_disk == m.2
                    &&& self.line_count == count0 + m.3
                }),
        {
            proof {
                assert(temps@.take(i + 1).drop_last() =~= temps@.take(i as int));
                assert(temps@.take(i + 1).last() == temps@[i as int]);
                lemma_mac_count_grows(start, temps@, i + 1);
            }
            if temps[i].1.is_some() {
                let label = &temps[i].0;
                let l = label.as_str();
                if !has_cpu && str_contains(l, "tdie") {
                    self.cpu_name = Some(label.clone());
                    has_cpu = true;
                    self.line_count = self.line_count + 1;
                } else if !has_disk && str_contains(l, "NAND") {
                    self.disk_name = Some(label.clone());
                    has_disk = true;
                    self.line_count = self.line_count + 1;
                }
            }
        }
        proof {
            assert(temps@.take(temps.len() as int) =~= temps@);
        }
    }

    /// The height: a line per shown sensor (at least one) and two borders.
    pub fn get_height(&self) -> (h: u16)
        ensures
            h == (if self.line_count_spec() >= 1 { self.line_count_spec() as u16 } else { 1 }) + 2,
    {
        let n = self.line_count as u16;
        if n >= 1 {
            n + 2
        } else {
            3
        }
    }

    /// Whether a reading's label is one of the shown sensors.
    pub fn is_shown(&self, label: &String) -> (r: bool)
        ensures
            r == (self.names().0 == Some(label@) || self.names().1 == Some(label@)
                || self.names().2 == Some(label@)),
    {
        let a = match &self.cpu_name {
            Some(n) => *n == *label,
            None => false,
        };
        let b = match &self.disk_name {
            Some(n) => *n == *label,
            None => false,
        };
        let c = match &self.nic_name {
            Some(n) => *n == *label,
            None => false,
        };
        a || b || c
    }

    /// The width: the longest shown label plus ten (16 without any), plus
    /// four, at least twenty; lengths in bytes, the widest taken modulo 2^16.
    pub fn get_length(&self) -> (w: u16)
        requires
            width_fits(self.names().0),
            width_fits(self.names().1),
            width_fits(self.names().2),
        ensures
            w == length_of(self.names()),
    {
        let mut widest: usize = 0;
        let mut any = false;
        if let Some(n) = &self.cpu_name {
            assert(self.names().0 == Some(n@));
            widest = n.as_str().len() + 10;
            any = true;
        }
        if let Some(n) = &self.disk_name {
            assert(self.names().1 == Some(n@));
            let k = n.as_str().len() + 10;
            if !any || k > widest {
                widest = k;
            }
            any = true;
        }
        if let Some(n) = &self.nic_name {
            assert(self.names().2 == Some(n@));
            let k = n.as_str().len() + 10;
            if !any || k > widest {
                widest = k;
            }
            any = true;
        }
        if !any {
            widest = 16;
        }
        let w = (widest % 0x1_0000) as u16 + 4;
        if w > 20 {
            w
        } else {
            20
        }
    }
    /// The lines of the list, each as its label part `"{label}: "` and its
    /// value part `"{:.1}°C"`: one for each reading, in order, of a shown
    /// sensor that has a temperature.
    pub fn shown_lines(&self, temps: &Vec<TempReading>) -> (v: Vec<(String, String)>)
        ensures
            v@.map_values(|p: (String, String)| (p.0@, p.1@)) == shown_lines_of(self.names(), temps@),
    {
        let mut v: Vec<(String, String)> = Vec::new();
        for i in 0..temps.len()
            invariant
                v@.map_values(|p: (String, String)| (p.0@, p.1@)) == shown_lines_of(self.names(), temps@.take(i as int)),
        {
            proof {
                assert(temps@.take(i + 1).drop_last() =~= temps@.take(i as int));
                assert(temps@.take(i + 1).last() == temps@[i as int]);
            }
            if let Some(t) = temps[i].1 {
                if self.is_shown(&temps[i].0) {
                    let mut label: Vec<char> = Vec::new();
                    push_str(&mut label, temps[i].0.as_str());
                    label.push(':');
                    label.push(' ');
                    let mut value: Vec<char> = Vec::new();
                    push_float_fixed(decode_f32(t), 1, &mut value);
                    value.push('°');
                    value.push('C');
                    assert(label@ =~= reading_label_text(temps@[i as int].0@));
                    assert(value@ =~= reading_value_text(t));
                    v.push((string_from_chars(&label), string_from_chars(&value)));
                    assert(v@.map_values(|p: (String, String)| (p.0@, p.1@)) =~= shown_lines_of(
                        self.names(),
                        temps@.take(i + 1),
                    ));
                }
            }
        }
        proof {
            assert(temps@.take(temps.len() as int) =~= temps@);
        }
        v
    }
}

/// The label is one of the shown names.
pub open spec fn is_shown_name(n: ShownNames, l: Seq<char>) -> bool {
    n.0 == Some(l) || n.1 == Some(l) || n.2 == Some(l)
}

/// The label part of a list line: `"{label}: "`.
pub open spec fn reading_label_text(label: Seq<char>) -> Seq<char> {
    label + seq![':', ' ']
}

/// The value part of a list line: `"{:.1}°C"` of an `f32` temperature with
/// bit pattern `bits`.
pub open spec fn reading_value_text(bits: u32) -> Seq<char> {
    fmt_fixed(f32_from_bits(bits), 1) + seq!['°', 'C']
}

/// The list's lines for the readings in order, as label and value parts:
/// one per reading of a shown sensor that has a temperature.
pub open spec fn shown_lines_of(n: ShownNames, temps: Seq<TempReading>) -> Seq<(Seq<char>, Seq<char>)>
    decreases temps.len(),
{
    if temps.len() == 0 {
        Seq::empty()
    } else {
        let prev = shown_lines_of(n, temps.drop_last());
        match temps.last().1 {
            Some(b) => if is_shown_name(n, temps.last().0@) {
                prev.push((reading_label_text(temps.last().0@), reading_value_text(b)))
            } else {
                prev
            },
            None => prev,
        }
    }
}

/// A shown name is short enough for the width arithmetic.
pub open spec fn width_fits(n: Option<Seq<char>>) -> bool {
    match n {
        Some(s) => str_len(s) as nat + 10 <= usize::MAX && (str_len(s) as nat + 10) % 0x1_0000 + 4
            <= u16::MAX,
        None => true,
    }
}

/// The width each shown name asks for: its length in bytes plus ten.
pub open spec fn name_width(n: Option<Seq<char>>) -> int {
    match n {
        Some(s) => str_len(s) as int + 10,
        None => -1,
    }
}

/// The width of the list for the shown names.
pub open spec fn length_of(n: ShownNames) -> u16 {
    let a = name_width(n.0);
    let b = name_width(n.1);
    let c = name_width(n.2);
    let m0 = if a >= b { a } else { b };
    let m = if m0 >= c { m0 } else { c };
    let widest = if m < 0 { 16 } else { m };
    let w = widest % 0x1_0000 + 4;
    if w > 20 {
        w as u16
    } else {
        20
    }
}

/// A label with any of the CPU sensor words: `coretemp`, `Package id`,
/// `k10temp`, `Tdie`.
pub open spec fn has_cpu_word(l: Seq<char>) -> bool {
    has_infix(l, "coretemp"@) || has_infix(l, "Package id"@) || has_infix(l, "k10temp"@)
        || has_infix(l, "Tdie"@)
}

/// A label that names an NVMe drive and no CPU sensor.
pub open spec fn disk_only_label(l: Seq<char>) -> bool {
    has_infix(l, "nvme"@) && !has_cpu_word(l)
}

/// A label that names a wireless card, and neither a CPU sensor nor an
/// NVMe drive.
pub open spec fn nic_only_label(l: Seq<char>) -> bool {
    has_infix(l, "iwlwifi"@) && !has_infix(l, "nvme"@) && !has_cpu_word(l)
}

/// Choosing the shown sensors on Linux: a role once filled keeps its
/// sensor; the CPU role goes to the first label with a CPU word, when there
/// is one.
pub proof fn lemma_cpu_role(n: ShownNames, temps: Seq<TempReading>)
    ensures
        n.0 is Some ==> names_after(n, temps).0 == n.0,
        n.0 is None ==> ((names_after(n, temps).0 is Some) <==> exists|i: int|
            0 <= i < temps.len() && has_cpu_word(#[trigger] temps[i].0@)),
        n.0 is None && names_after(n, temps).0 is Some ==> exists|i: int|
            0 <= i < temps.len() && names_after(n, temps).0 == Some(temps[i].0@) && has_cpu_word(
                temps[i].0@,
            ) && forall|k: int| 0 <= k < i ==> !has_cpu_word(#[trigger] temps[k].0@),
    decreases temps.len(),
{
    if temps.len() > 0 {
        let t = temps.drop_last();
        lemma_cpu_role(n, t);
        let last = temps.len() - 1;
        assert forall|i: int| 0 <= i < t.len() implies #[trigger] t[i] == temps[i] by {}
        if n.0 is None {
            if names_after(n, t).0 is None {
                assert forall|k: int| 0 <= k < last implies !has_cpu_word(#[trigger] temps[k].0@) by {
                    assert(t[k] == temps[k]);
                }
                if exists|i: int| 0 <= i < temps.len() && has_cpu_word(#[trigger] temps[i].0@) {
                    let i = choose|i: int| 0 <= i < temps.len() && has_cpu_word(#[trigger] temps[i].0@);
                    assert(i == last);
                }
            } else {
                let i = choose|i: int|
                    0 <= i < t.len() && names_after(n, t).0 == Some(t[i].0@) && has_cpu_word(t[i].0@)
                        && forall|k: int| 0 <= k < i ==> !has_cpu_word(#[trigger] t[k].0@);
                assert(t[i] == temps[i]);
                assert forall|k: int| 0 <= k < i implies !has_cpu_word(#[trigger] temps[k].0@) by {
                    assert(t[k] == temps[k]);
                }
                assert(has_cpu_word(temps[i].0@));
            }
        }
    }
}

/// Choosing the shown sensors on Linux: the disk role, once filled, keeps
/// its sensor; when free, it goes to an NVMe label whenever one that names
/// no CPU sensor is given, and to none later than the first such.
pub proof fn lemma_disk_role(n: ShownNames, temps: Seq<TempReading>)
    ensures
        n.1 is Some ==> names_after(n, temps).1 == n.1,
        n.1 is None && (exists|i: int| 0 <= i < temps.len() && disk_only_label(#[trigger] temps[i].0@))
            ==> names_after(n, temps).1 is Some,
        n.1 is None && names_after(n, temps).1 is Some ==> exists|i: int|
            0 <= i < temps.len() && names_after(n, temps).1 == Some(temps[i].0@) && has_infix(
                temps[i].0@,
                "nvme"@,
            ) && forall|k: int| 0 <= k < i ==> !disk_only_label(#[trigger] temps[k].0@),
    decreases temps.len(),
{
    if temps.len() > 0 {
        let t = temps.drop_last();
        lemma_disk_role(n, t);
        let last = temps.len() - 1;
        assert forall|i: int| 0 <= i < t.len() implies #[trigger] t[i] == temps[i] by {}
        if n.1 is None {
            if names_after(n, t).1 is None {
                assert forall|k: int| 0 <= k < last implies !disk_only_label(#[trigger] temps[k].0@) by {
                    assert(t[k] == temps[k]);
                }
                if exists|i: int| 0 <= i < temps.len() && disk_only_label(#[trigger] temps[i].0@) {
                    let i = choose|i: int| 0 <= i < temps.len() && disk_only_label(#[trigger] temps[i].0@);
                    assert(i == last);
                }
            } else {
                let i = choose|i: int|
                    0 <= i < t.len() && names_after(n, t).1 == Some(t[i].0@) && has_infix(t[i].0@, "nvme"@)
                        && forall|k: int| 0 <= k < i ==> !disk_only_label(#[trigger] t[k].0@);
                assert(t[i] == temps[i]);
                assert forall|k: int| 0 <= k < i implies !disk_only_label(#[trigger] temps[k].0@) by {
                    assert(t[k] == temps[k]);
                }
                assert(has_infix(temps[i].0@, "nvme"@));
            }
        }
    }
}

/// Choosing the shown sensors on Linux: the wireless role, once filled,
/// keeps its sensor; when free, it goes to an `iwlwifi` label whenever one
/// that names neither a CPU sensor nor an NVMe drive is given, and to none
/// later than the first such.
pub proof fn lemma_nic_role(n: ShownNames, temps: Seq<TempReading>)
    ensures
        n.2 is Some ==> names_after(n, temps).2 == n.2,
        n.2 is None && (exists|i: int| 0 <= i < temps.len() && nic_only_label(#[trigger] temps[i].0@))
            ==> names_after(n, temps).2 is Some,
        n.2 is None && names_after(n, temps).2 is Some ==> exists|i: int|
            0 <= i < temps.len() && names_after(n, temps).2 == Some(temps[i].0@) && has_infix(
                temps[i].0@,
                "iwlwifi"@,
            ) && forall|k: int| 0 <= k < i ==> !nic_only_label(#[trigger] temps[k].0@),
    decreases temps.len(),
{
    if temps.len() > 0 {
        let t = temps.drop_last();
        lemma_nic_role(n, t);
        let last = temps.len() - 1;
        assert forall|i: int| 0 <= i < t.len() implies #[trigger] t[i] == temps[i] by {}
        if n.2 is None {
            if names_after(n, t).2 is None {
                assert forall|k: int| 0 <= k < last implies !nic_only_label(#[trigger] temps[k].0@) by {
                    assert(t[k] == temps[k]);
                }
                if exists|i: int| 0 <= i < temps.len() && nic_only_label(#[trigger] temps[i].0@) {
                    let i = choose|i: int| 0 <= i < temps.len() && nic_only_label(#[trigger] temps[i].0@);
                    assert(i == last);
                }
            } else {
                let i = choose|i: int|
                    0 <= i < t.len() && names_after(n, t).2 == Some(t[i].0@) && has_infix(t[i].0@, "iwlwifi"@)
                        && forall|k: int| 0 <= k < i ==> !nic_only_label(#[trigger] t[k].0@);
                assert(t[i] == temps[i]);
                assert forall|k: int| 0 <= k < i implies !nic_only_label(#[trigger] temps[k].0@) by {
                    assert(t[k] == temps[k]);
                }
                assert(has_infix(temps[i].0@, "iwlwifi"@));
            }
        }
    }
}

/// The number of set names counts each set role once: none for no name,
/// three for all three, and one more for each role that is filled.
pub proof fn lemma_name_count_counts(a: Option<Seq<char>>, b: Option<Seq<char>>, c: Option<Seq<char>>, x: Seq<char>)
    ensures
        name_count((None, None, None)) == 0,
        name_count((Some(x), b, c)) == name_count((None, b, c)) + 1,
        name_count((a, Some(x), c)) == name_count((a, None, c)) + 1,
        name_count((a, b, Some(x))) == name_count((a, b, None)) + 1,
{
}

/// The macOS pass leaves the wireless name as it was and adds one line
/// for each role it fills; the CPU role is filled exactly when some reading
/// with a temperature has `tdie` in its label, and by the first such
/// label; the disk role is filled whenever some reading with a temperature
/// has `NAND` and no `tdie` in its label.
pub proof fn lemma_mac_roles(n: ShownNames, temps: Seq<TempReading>)
    ensures
        ({
            let m = mac_names_after(mac_start(n), temps);
            &&& m.0.2 == n.2
            &&& m.3 == (if m.1 { 1nat } else { 0 }) + (if m.2 { 1nat } else { 0 })
            &&& !m.1 ==> m.0.0 == n.0
            &&& !m.2 ==> m.0.1 == n.1
            &&& m.1 <==> exists|i: int|
                0 <= i < temps.len() && #[trigger] temps[i].1 is Some && has_infix(temps[i].0@, "tdie"@)
            &&& m.1 ==> exists|i: int|
                0 <= i < temps.len() && m.0.0 == Some(temps[i].0@) && has_infix(temps[i].0@, "tdie"@)
                    && temps[i].1 is Some && forall|k: int|
                    0 <= k < i ==> !(#[trigger] temps[k].1 is Some && has_infix(temps[k].0@, "tdie"@))
            &&& (exists|i: int|
                0 <= i < temps.len() && #[trigger] temps[i].1 is Some && has_infix(temps[i].0@, "NAND"@)
                    && !has_infix(temps[i].0@, "tdie"@)) ==> m.2
        }),
    decreases temps.len(),
{
    if temps.len() > 0 {
        let t = temps.drop_last();
        let last = temps.len() - 1;
        lemma_mac_roles(n, t);
        let p = mac_names_after(mac_start(n), t);
        assert forall|i: int| 0 <= i < t.len() implies #[trigger] t[i] == temps[i] by {}
        if exists|i: int|
            0 <= i < temps.len() && #[trigger] temps[i].1 is Some && has_infix(temps[i].0@, "tdie"@) {
            let i = choose|i: int|
                0 <= i < temps.len() && #[trigger] temps[i].1 is Some && has_infix(temps[i].0@, "tdie"@);
            if i < last {
                assert(t[i] == temps[i]);
            }
        }
        if exists|i: int|
            0 <= i < temps.len() && #[trigger] temps[i].1 is Some && has_infix(temps[i].0@, "NAND"@)
                && !has_infix(temps[i].0@, "tdie"@) {
            let i = choose|i: int|
                0 <= i < temps.len() && #[trigger] temps[i].1 is Some && has_infix(temps[i].0@, "NAND"@)
                    && !has_infix(temps[i].0@, "tdie"@);
            if i < last {
                assert(t[i] == temps[i]);
            }
        }
        if p.1 {
            let i = choose|i: int|
                0 <= i < t.len() && p.0.0 == Some(t[i].0@) && has_infix(t[i].0@, "tdie"@) && t[i].1 is Some
                    && forall|k: int| 0 <= k < i ==> !(#[trigger] t[k].1 is Some && has_infix(t[k].0@, "tdie"@));
            assert(t[i] == temps[i]);
            assert forall|k: int| 0 <= k < i implies !(#[trigger] temps[k].1 is Some && has_infix(
                temps[k].0@,
                "tdie"@,
            )) by {
                assert(t[k] == temps[k]);
            }
        } else {
            assert forall|k: int| 0 <= k < last implies !(#[trigger] temps[k].1 is Some && has_infix(
                temps[k].0@,
                "tdie"@,
            )) by {
                assert(t[k] == temps[k]);
            }
        }
    }
}

} // verus!
