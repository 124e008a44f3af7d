//! The total CPU bar and the temperature bar: their colours.

use vstd::prelude::*;
use crate::binary::{
    decode_f32, decode_f64, f32_from_bits, f64_from_bits, float_lt, float_lt_exec, fmt_fixed,
    push_float_fixed,
};
use crate::decimal::pad_left;
use crate::draw::widgets::temp_widget::{is_cpu_label, is_disk_label, TempReading};
use crate::order::{has_infix, str_contains};
use crate::text::{push_str, string_from_chars};
use crate::ui::Color;
use crate::platform::Platform;

verus! {

/// How a bar is coloured by its percentage.
#[derive(Clone, Copy, Debug, PartialEq, Eq, Structural)]
pub enum BarColorScheme {
    Green,
    Yellow,
    Red,
}

/// The colour of a bar at the `f64` percentage with bit pattern `bits`.
pub open spec fn bar_color(scheme: BarColorScheme, bits: u64) -> Color {
    let p = f64_from_bits(bits);
    match scheme {
        BarColorScheme::Green => if float_lt(p, 50) {
            Color::Green
        } else if float_lt(p, 75) {
            Color::Yellow
        } else {
            Color::Red
        },
        BarColorScheme::Yellow => Color::Yellow,
        BarColorScheme::Red => Color::Red,
    }
}

impl BarColorScheme {
    /// Green below 50%, yellow below 75%, red from there (or a fixed colour).
    pub fn get_color(&self, percentage_bits: u64) -> (c: Color)
        ensures
            c == bar_color(*self, percentage_bits),
    {
        let p = decode_f64(percentage_bits);
        match self {
            BarColorScheme::Green => {
                if float_lt_exec(p, 50) {
                    Color::Green
                } else if float_lt_exec(p, 75) {
                    Color::Yellow
                } else {
                    Color::Red
                }
            },
            BarColorScheme::Yellow => Color::Yellow,
            BarColorScheme::Red => Color::Red,
        }
    }
}


/// Appends `chars` right-aligned in a field of `width` cells.
pub fn push_padded(chars: Vec<char>, width: usize, out: &mut Vec<char>)
    ensures
        final(out)@ == old(out)@ + pad_left(chars@, width as nat),
{
    if chars.len() < width {
        crate::decimal::push_repeat(' ', width - chars.len(), out);
    }
    let ghost mid = out@;
    for i in 0..chars.len()
        invariant
            out@ == mid + chars@.take(i as int),
    {
        out.push(chars[i]);
        assert(chars@.take(i + 1) =~= chars@.take(i as int).push(chars@[i as int]));
    }
    assert(chars@.take(chars.len() as int) =~= chars@);
    assert(old(out)@ + pad_left(chars@, width as nat) =~= out@);
}

/// `"CPU: {:>5.1}% "` of an `f64` usage with bit pattern `bits`.
pub open spec fn total_label_text(bits: u64) -> Seq<char> {
    "CPU: "@ + pad_left(fmt_fixed(f64_from_bits(bits), 1), 5) + "% "@
}

/// The total CPU usage bar.
pub struct TotalCoreBar {
    total_usage: u64,
    color_scheme: BarColorScheme,
}

impl TotalCoreBar {
    /// The usage, as the bit pattern of an `f64` percentage.
    pub closed spec fn usage_spec(self) -> u64 {
        self.total_usage
    }

    /// The colour scheme.
    pub closed spec fn scheme_spec(self) -> BarColorScheme {
        self.color_scheme
    }

    /// A bar at zero usage.
    pub fn new(color_scheme: BarColorScheme) -> (b: Self)
        ensures
            b.usage_spec() == 0,
            b.scheme_spec() == color_scheme,
    {
        TotalCoreBar { total_usage: 0, color_scheme }
    }

    /// Sets the usage (the mean of the core usages, an `f64` bit pattern).
    pub fn set_total_usage(&mut self, usage_bits: u64)
        ensures
            final(self).usage_spec() == usage_bits,
            final(self).scheme_spec() == old(self).scheme_spec(),
    {
        self.total_usage = usage_bits;
    }

    /// The usage, as the bit pattern of an `f64` percentage.
    pub fn total_usage(&self) -> (u: u64)
        ensures
            u == self.usage_spec(),
    {
        self.total_usage
    }

    /// The colour of the bar.
    pub fn color(&self) -> (c: Color)
        ensures
            c == bar_color(self.scheme_spec(), self.usage_spec()),
    {
        self.color_scheme.get_color(self.total_usage)
    }

    /// The label in front of the bar: `"CPU: {:>5.1}% "`.
    pub fn label(&self) -> (s: String)
        ensures
            s@ == total_label_text(self.usage_spec()),
    {
        let mut out: Vec<char> = Vec::new();
        push_str(&mut out, "CPU: ");
        let mut num: Vec<char> = Vec::new();
        push_float_fixed(decode_f64(self.total_usage), 1, &mut num);
        push_padded(num, 5, &mut out);
        push_str(&mut out, "% ");
        string_from_chars(&out)
    }
}

/// The sensor a temperature bar shows a label as.
#[derive(Clone, Copy, Debug, PartialEq, Eq, Structural)]
pub enum SensorKind {
    Cpu,
    Disk,
    Nic,
    Ddr,
    Other,
}

/// The first role a label fits: CPU, NVMe drive, MediaTek wireless card,
/// memory module.
pub open spec fn sensor_kind(l: Seq<char>) -> SensorKind {
    if is_cpu_label(l) {
        SensorKind::Cpu
    } else if is_disk_label(l) {
        SensorKind::Disk
    } else if has_infix(l, "iwlwifi"@) && has_infix(l, "MT"@) {
        SensorKind::Nic
    } else if has_infix(l, "spd"@) {
        SensorKind::Ddr
    } else {
        SensorKind::Other
    }
}

/// The temperature of the last reading of the given kind that has one.
pub open spec fn last_reading(temps: Seq<TempReading>, k: SensorKind) -> Option<u32>
    decreases temps.len(),
{
    if temps.len() == 0 {
        None
    } else if temps.last().1 is Some && sensor_kind(temps.last().0@) == k {
        temps.last().1
    } else {
        last_reading(temps.drop_last(), k)
    }
}

/// A temperature kept unless the readings give a new one.
pub open spec fn updated(old: Option<u32>, temps: Seq<TempReading>, k: SensorKind) -> Option<u32> {
    match last_reading(temps, k) {
        Some(t) => Some(t),
        None => old,
    }
}

/// `"{label}: {:>4.1}°C "` of an `f32` temperature with bit pattern `bits`.
pub open spec fn sensor_label_text(label: Seq<char>, bits: u32) -> Seq<char> {
    label + ": "@ + pad_left(fmt_fixed(f32_from_bits(bits), 1), 4) + "°C "@
}

/// The hardware temperature bars: CPU, disk, network card and memory.
pub struct TempBar {
    color_scheme: BarColorScheme,
    cpu_temp: Option<u32>,
    disk_temp: Option<u32>,
    ddr_temp: Option<u32>,
    nic_temp: Option<u32>,
}

impl TempBar {
    /// The temperatures (`f32` bit patterns): CPU, disk, network card, memory.
    pub closed spec fn temps_spec(self) -> (Option<u32>, Option<u32>, Option<u32>, Option<u32>) {
        (self.cpu_temp, self.disk_temp, self.nic_temp, self.ddr_temp)
    }

    /// The colour scheme.
    pub closed spec fn scheme_spec(self) -> BarColorScheme {
        self.color_scheme
    }

    /// Bars without readings.
    pub fn new(color_scheme: BarColorScheme) -> (b: Self)
        ensures
            b.temps_spec() == (None::<u32>, None::<u32>, None::<u32>, None::<u32>),
            b.scheme_spec() == color_scheme,
    {
        TempBar { color_scheme, cpu_temp: None, disk_temp: None, ddr_temp: None, nic_temp: None }
    }

    /// Takes new temperatures from the readings. On Linux: for each bar,
    /// the last reading of its kind that has a temperature; a bar without
    /// one keeps its value. On macOS: the first `tdie` reading with a
    /// temperature for the CPU bar, the first `NAND` one for the disk bar.
    pub fn update(&mut self, temps: &Vec<TempReading>, platform: Platform)
        ensures
            platform == Platform::Linux ==> final(self).temps_spec() == (
                updated(old(self).temps_spec().0, temps@, SensorKind::Cpu),
                updated(old(self).temps_spec().1, temps@, SensorKind::Disk),
                updated(old(self).temps_spec().2, temps@, SensorKind::Nic),
                updated(old(self).temps_spec().3, temps@, SensorKind::Ddr),
            ),
            platform == Platform::MacOs ==> {
                let m = mac_temps_after(mac_temps_start(old(self).temps_spec()), temps@);
                final(self).temps_spec() == (m.0, m.1, old(self).temps_spec().2, old(self).temps_spec().3)
            },
            final(self).scheme_spec() == old(self).scheme_spec(),
    {
        match platform {
            Platform::Linux => self.update_linux(temps),
            Platform::MacOs => self.update_mac(temps),
        }
    }

    fn update_linux(&mut self, temps: &Vec<TempReading>)
        ensures
            final(self).temps_spec() == (
                updated(old(self).temps_spec().0, temps@, SensorKind::Cpu),
                updated(old(self).temps_spec().1, temps@, SensorKind::Disk),
                updated(old(self).temps_spec().2, temps@, SensorKind::Nic),
                updated(old(self).temps_spec().3, temps@, SensorKind::Ddr),
            ),
            final(self).scheme_spec() == old(self).scheme_spec(),
    {
        let ghost start = self.temps_spec();
        for i in 0..temps.len()
            invariant
                self.scheme_spec() == old(self).scheme_spec(),
                start == old(self).temps_spec(),
                self.temps_spec() == (
                    updated(start.0, temps@.take(i as int), SensorKind::Cpu),
                    updated(start.1, temps@.take(i as int), SensorKind::Disk),
                    updated(start.2, temps@.take(i as int), SensorKind::Nic),
                    updated(start.3, temps@.take(i as int), SensorKind::Ddr),
                ),
        {
            proof {
                assert(temps@.take(i + 1).drop_last() =~= temps@.take(i as int));
                assert(temps@.take(i + 1).last() == temps@[i as int]);
            }
            if let Some(t) = temps[i].1 {
                let l = temps[i].0.as_str();
                if str_contains(l, "coretemp") || str_contains(l, "Package id") || str_contains(
                    l,
                    "k10temp",
                ) || str_contains(l, "Tdie") {
                    self.cpu_temp = Some(t);
                } else if str_contains(l, "nvme") {
                    self.disk_temp = Some(t);
                } else if str_contains(l, "iwlwifi") && str_contains(l, "MT") {
                    self.nic_temp = Some(t);
                } else if str_contains(l, "spd") {
                    self.ddr_temp = Some(t);
                }
            }
        }
        proof {
            assert(temps@.take(temps.len() as int) =~= temps@);
        }
    }

    fn update_mac(&mut self, temps: &Vec<TempReading>)
        ensures
            ({
                let m = mac_temps_after(mac_temps_start(old(self).temps_spec()), temps@);
                final(self).temps_spec() == (m.0, m.1, old(self).temps_spec().2, old(self).temps_spec().3)
            }),
            final(self).scheme_spec() == old(self).scheme_spec(),
    {
        let mut has_cpu = false;
        let mut has_disk = false;
        let ghost start = mac_temps_start(old(self).temps_spec());
        for i in 0..temps.len()
            invariant
                self.scheme_spec() == old(self).scheme_spec(),
                start == mac_temps_start(old(self).temps_spec()),
                self.temps_spec().2 == old(self).temps_spec().2,
                self.temps_spec().3 == old(self).temps_spec().3,
                ({
                    let m = mac_temps_after(start, temps@.take(i as int));
                    &&& self.temps_spec().0 == m.0
                    &&& self.temps_spec().1 == m.1
                    &&& has_cpu == m.2
                    &&& has_disk == m.3
                }),
        {
            proof {
                assert(temps@.take(i + 1).drop_last() =~= temps@.take(i as int));
                assert(temps@.take(i + 1).last() == temps@[i as int]);
            }
            if let Some(t) = temps[i].1 {
                let l = temps[i].0.as_str();
                if !has_cpu && str_contains(l, "tdie") {
                    self.cpu_temp = Some(t);
                    has_cpu = true;
                } else if !has_disk && str_contains(l, "NAND") {
                    self.disk_temp = Some(t);
                    has_disk = true;
                }
            }
        }
        proof {
            assert(temps@.take(temps.len() as int) =~= temps@);
        }
    }

    /// The height: a line per two readings, at least one, and two borders.
    /// On Linux the readings counted are CPU, disk and (twice) memory; on
    /// macOS CPU and disk.
    pub fn get_height(&self, platform: Platform) -> (h: u16)
        ensures
            platform == Platform::Linux ==> h == height_of(self.temps_spec()),
            platform == Platform::MacOs ==> h == mac_height_of(self.temps_spec()),
    {
        if platform == Platform::MacOs {
            let count: u16 = if self.cpu_temp.is_some() && self.disk_temp.is_some() {
                2
            } else if self.cpu_temp.is_some() || self.disk_temp.is_some() {
                1
            } else {
                0
            };
            let rows = (count + 1) / 2;
            return if rows >= 1 {
                rows + 2
            } else {
                3
            };
        }
        let mut count: u16 = 0;
        if self.cpu_temp.is_some() {
            count = count + 1;
        }
        if self.disk_temp.is_some() {
            count = count + 1;
        }
        if self.ddr_temp.is_some() {
            count = count + 2;
        }
        let rows = (count + 1) / 2;
        if rows >= 1 {
            rows + 2
        } else {
            3
        }
    }

    /// The readings to draw, in order CPU, Disk, Nic, DDR, with their labels.
    pub fn active_sensors(&self) -> (v: Vec<(&'static str, u32)>)
        ensures
            v@.map_values(|e: (&'static str, u32)| (e.0@, e.1)) == active_of(self.temps_spec()),
    {
        let mut v: Vec<(&'static str, u32)> = Vec::new();
        if let Some(t) = self.cpu_temp {
            v.push(("CPU", t));
        }
        if let Some(t) = self.disk_temp {
            v.push(("Disk", t));
        }
        if let Some(t) = self.nic_temp {
            v.push(("Nic", t));
        }
        if let Some(t) = self.ddr_temp {
            v.push(("DDR", t));
        }
        assert(v@.map_values(|e: (&'static str, u32)| (e.0@, e.1)) =~= active_of(self.temps_spec()));
        v
    }

    /// The colour of a temperature bar for an `f32` temperature: the scheme
    /// applied to the temperature as a percentage.
    pub fn color_scheme(&self) -> (c: BarColorScheme)
        ensures
            c == self.scheme_spec(),
    {
        self.color_scheme
    }

    /// The width of a temperature bar in a panel `inner_width` cells wide:
    /// half the panel less the label's length and eleven cells of text,
    /// none where that is not positive.
    pub fn bar_width(inner_width: u16, label_len: usize) -> (w: usize)
        requires
            label_len + 11 <= usize::MAX,
        ensures
            w == (if inner_width / 2 >= label_len + 11 { inner_width / 2 - (label_len + 11) } else { 0 }),
    {
        let half = (inner_width / 2) as usize;
        if half >= label_len + 11 {
            half - (label_len + 11)
        } else {
            0
        }
    }

    /// The label in front of a temperature bar: `"{label}: {:>4.1}°C "`.
    pub fn sensor_label(label: &str, temp_bits: u32) -> (s: String)
        ensures
            s@ == sensor_label_text(label@, temp_bits),
    {
        let mut out: Vec<char> = Vec::new();
        push_str(&mut out, label);
        push_str(&mut out, ": ");
        let mut num: Vec<char> = Vec::new();
        push_float_fixed(decode_f32(temp_bits), 1, &mut num);
        push_padded(num, 4, &mut out);
        push_str(&mut out, "°C ");
        string_from_chars(&out)
    }
}

/// The height of the temperature bars for the given readings.
pub open spec fn height_of(t: (Option<u32>, Option<u32>, Option<u32>, Option<u32>)) -> u16 {
    let count = (if t.0 is Some { 1int } else { 0 }) + (if t.1 is Some { 1int } else { 0 }) + (if t.3
        is Some {
        2int
    } else {
        0
    });
    let rows = (count + 1) / 2;
    if rows >= 1 {
        (rows + 2) as u16
    } else {
        3
    }
}

/// The height of the temperature bars on macOS, counting the CPU and disk
/// readings.
pub open spec fn mac_height_of(t: (Option<u32>, Option<u32>, Option<u32>, Option<u32>)) -> u16 {
    let count = (if t.0 is Some { 1int } else { 0 }) + (if t.1 is Some { 1int } else { 0 });
    let rows = (count + 1) / 2;
    if rows >= 1 {
        (rows + 2) as u16
    } else {
        3
    }
}

/// What the macOS rules track: the CPU and disk temperatures and whether
/// each was found in this pass.
pub type MacTemps = (Option<u32>, Option<u32>, bool, bool);

/// The macOS pass starts from the bars' temperatures, nothing found yet.
pub open spec fn mac_temps_start(t: (Option<u32>, Option<u32>, Option<u32>, Option<u32>)) -> MacTemps {
    (t.0, t.1, false, false)
}

/// The macOS pass after one more reading: a reading with a temperature
/// sets the CPU bar if it is the first `tdie` one, else the disk bar if it
/// is the first `NAND` one.
pub open spec fn mac_temps_step(s: MacTemps, r: TempReading) -> MacTemps {
    match r.1 {
        Some(t) => if !s.2 && has_infix(r.0@, "tdie"@) {
            (Some(t), s.1, true, s.3)
        } else if !s.3 && has_infix(r.0@, "NAND"@) {
            (s.0, Some(t), s.2, true)
        } else {
            s
        },
        None => s,
    }
}

/// The macOS pass after the readings in order.
pub open spec fn mac_temps_after(s: MacTemps, temps: Seq<TempReading>) -> MacTemps
    decreases temps.len(),
{
    if temps.len() == 0 {
        s
    } else {
        mac_temps_step(mac_temps_after(s, temps.drop_last()), temps.last())
    }
}

/// The labelled readings that are present, in bar order.
pub open spec fn active_of(t: (Option<u32>, Option<u32>, Option<u32>, Option<u32>)) -> Seq<
    (Seq<char>, u32),
> {
    (match t.0 {
        Some(x) => seq![("CPU"@, x)],
        None => seq![],
    }) + (match t.1 {
        Some(x) => seq![("Disk"@, x)],
        None => seq![],
    }) + (match t.2 {
        Some(x) => seq![("Nic"@, x)],
        None => seq![],
    }) + (match t.3 {
        Some(x) => seq![("DDR"@, x)],
        None => seq![],
    })
}

/// The reading a bar takes is the last one of its kind that has a
/// temperature: there is one exactly when some reading of that kind has a
/// temperature, and no later reading of that kind has one.
pub proof fn lemma_last_reading_is_last(temps: Seq<TempReading>, k: SensorKind)
    ensures
        (last_reading(temps, k) is Some) <==> exists|i: int|
            0 <= i < temps.len() && #[trigger] temps[i].1 is Some && sensor_kind(temps[i].0@) == k,
        last_reading(temps, k) is Some ==> exists|i: int|
            0 <= i < temps.len() && #[trigger] temps[i].1 == last_reading(temps, k) && sensor_kind(
                temps[i].0@,
            ) == k && forall|j: int|
                i < j < temps.len() ==> !(#[trigger] temps[j].1 is Some && sensor_kind(temps[j].0@) == k),
    decreases temps.len(),
{
    if temps.len() > 0 {
        let t = temps.drop_last();
        let last = temps.len() - 1;
        lemma_last_reading_is_last(t, k);
        assert forall|i: int| 0 <= i < t.len() implies #[trigger] t[i] == temps[i] by {}
        if temps.last().1 is Some && sensor_kind(temps.last().0@) == k {
            assert(temps[last].1 is Some);
        } else {
            if exists|i: int| 0 <= i < temps.len() && #[trigger] temps[i].1 is Some && sensor_kind(temps[i].0@) == k {
                let i = choose|i: int|
                    0 <= i < temps.len() && #[trigger] temps[i].1 is Some && sensor_kind(temps[i].0@) == k;
                assert(t[i] == temps[i]);
            }
            if last_reading(t, k) is Some {
                let i = choose|i: int|
                    0 <= i < t.len() && #[trigger] t[i].1 == last_reading(t, k) && sensor_kind(t[i].0@) == k
                        && forall|j: int|
                        i < j < t.len() ==> !(#[trigger] t[j].1 is Some && sensor_kind(t[j].0@) == k);
                assert(t[i] == temps[i]);
                assert forall|j: int| i < j < temps.len() implies !(#[trigger] temps[j].1 is Some
                    && sensor_kind(temps[j].0@) == k) by {
                    if j < last {
                        assert(t[j] == temps[j]);
                    }
                }
            } else {
                assert forall|i: int| 0 <= i < temps.len() implies !(#[trigger] temps[i].1 is Some
                    && sensor_kind(temps[i].0@) == k) by {
                    if i < last {
                        assert(t[i] == temps[i]);
                    }
                }
            }
        }
    }
}

} // verus!
