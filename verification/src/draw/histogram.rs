//! The network chart: the recent receive and transmit rates, their axes
//! and the totals.

use vstd::prelude::*;
use crate::binary::{int_to_float_exec, scale_down, scale_down_exec};
use crate::decimal::{dec_digits, push_dec};
use crate::text::{push_str, string_from_chars};
use crate::tools::units::{as_f64, axis_text, format_axis_label_of, format_rate_of, format_total, rate_text, total_text};

verus! {

/// The last `max_points` samples of each direction, as (tick, bytes).
pub struct NetworkHistogram {
    rx_history: Vec<(u64, u64)>,
    tx_history: Vec<(u64, u64)>,
    total_rx: u64,
    total_tx: u64,
    max_points: usize,
    tick: u64,
}

/// `"{first}X: {rate} All: {total}"`, the rate being `current as f64`.
pub open spec fn series_name(first: char, current: u64, total: u64) -> Seq<char> {
    seq![first, 'X', ':', ' '] + rate_text(as_f64(current)) + seq![' ', 'A', 'l', 'l', ':', ' ']
        + total_text(total)
}

/// A history after one more sample: the oldest sample leaves once there
/// are more than `max` of them.
pub open spec fn pushed(h: Seq<(u64, u64)>, sample: (u64, u64), max: usize) -> Seq<(u64, u64)> {
    if h.push(sample).len() > max {
        h.push(sample).drop_first()
    } else {
        h.push(sample)
    }
}

/// The largest byte count of a history, 0 for none.
pub open spec fn max_bytes(h: Seq<(u64, u64)>) -> u64
    decreases h.len(),
{
    if h.len() == 0 {
        0
    } else {
        let m = max_bytes(h.drop_last());
        if h.last().1 > m {
            h.last().1
        } else {
            m
        }
    }
}

/// The top of the value axis: the largest sample of either direction, at
/// least one kilobyte.
pub open spec fn axis_top(rx: Seq<(u64, u64)>, tx: Seq<(u64, u64)>) -> u64 {
    let a = max_bytes(rx);
    let b = max_bytes(tx);
    let m = if a >= b { a } else { b };
    if m >= 1024 {
        m
    } else {
        1024
    }
}

/// The time span the chart covers, in seconds: two per sample, as an `i32`.
pub open spec fn time_span(max_points: usize) -> int {
    if 2 * max_points > i32::MAX {
        i32::MAX as int
    } else {
        2 * max_points
    }
}

/// The bytes of the newest sample, 0 for none.
pub open spec fn newest(h: Seq<(u64, u64)>) -> u64 {
    if h.len() == 0 {
        0
    } else {
        h.last().1
    }
}

impl NetworkHistogram {
    pub closed spec fn rx_spec(self) -> Seq<(u64, u64)> {
        self.rx_history@
    }

    pub closed spec fn tx_spec(self) -> Seq<(u64, u64)> {
        self.tx_history@
    }

    pub closed spec fn totals_spec(self) -> (u64, u64) {
        (self.total_rx, self.total_tx)
    }

    pub closed spec fn max_points_spec(self) -> usize {
        self.max_points
    }

    pub closed spec fn tick_spec(self) -> u64 {
        self.tick
    }

    /// An empty chart keeping `max_points` samples per direction.
    pub fn new(max_points: usize) -> (h: Self)
        ensures
            h.rx_spec() == Seq::<(u64, u64)>::empty(),
            h.tx_spec() == Seq::<(u64, u64)>::empty(),
            h.totals_spec() == (0u64, 0u64),
            h.max_points_spec() == max_points,
            h.tick_spec() == 0,
    {
        NetworkHistogram {
            rx_history: Vec::new(),
            tx_history: Vec::new(),
            total_rx: 0,
            total_tx: 0,
            max_points,
            tick: 0,
        }
    }

    /// Adds a sample: `curr` holds the bytes received and sent since the
    /// last one, `total` the totals; the tick advances.
    pub fn update(&mut self, curr: &Vec<u64>, total: &Vec<u64>)
        requires
            curr.len() >= 2,
            total.len() >= 2,
            old(self).tick_spec() < u64::MAX,
        ensures
            final(self).rx_spec() == pushed(old(self).rx_spec(), (old(self).tick_spec(), curr[0]), old(self).max_points_spec()),
            final(self).tx_spec() == pushed(old(self).tx_spec(), (old(self).tick_spec(), curr[1]), old(self).max_points_spec()),
            final(self).totals_spec() == (total[0], total[1]),
            final(self).tick_spec() == old(self).tick_spec() + 1,
            final(self).max_points_spec() == old(self).max_points_spec(),
    {
        self.rx_history.push((self.tick, curr[0]));
        self.tx_history.push((self.tick, curr[1]));
        self.total_rx = total[0];
        self.total_tx = total[1];
        self.tick = self.tick + 1;
        if self.rx_history.len() > self.max_points {
            self.rx_history.remove(0);
        }
        if self.tx_history.len() > self.max_points {
            self.tx_history.remove(0);
        }
    }

    /// The bytes of the newest samples: received, sent.
    pub fn current(&self) -> (r: (u64, u64))
        ensures
            r == (newest(self.rx_spec()), newest(self.tx_spec())),
    {
        let rx = if self.rx_history.len() == 0 {
            0
        } else {
            self.rx_history[self.rx_history.len() - 1].1
        };
        let tx = if self.tx_history.len() == 0 {
            0
        } else {
            self.tx_history[self.tx_history.len() - 1].1
        };
        (rx, tx)
    }

    /// The names of the two series: `"RX: {rate} All: {total}"` and
    /// `"TX: {rate} All: {total}"`, the rate being the newest sample.
    pub fn dataset_names(&self) -> (r: (String, String))
        ensures
            r.0@ == series_name('R', newest(self.rx_spec()), self.totals_spec().0),
            r.1@ == series_name('T', newest(self.tx_spec()), self.totals_spec().1),
    {
        let (rx, tx) = self.current();
        (Self::series('R', rx, self.total_rx), Self::series('T', tx, self.total_tx))
    }

    fn series(first: char, current: u64, total: u64) -> (s: String)
        ensures
            s@ == series_name(first, current, total),
    {
        let mut out: Vec<char> = Vec::new();
        out.push(first);
        push_str(&mut out, "X: ");
        let rate = format_rate_of(int_to_float_exec(current, 53));
        push_str(&mut out, rate.as_str());
        push_str(&mut out, " All: ");
        let t = format_total(total);
        push_str(&mut out, t.as_str());
        proof {
            reveal_strlit("X: ");
            reveal_strlit(" All: ");
        }
        assert(out@ =~= series_name(first, current, total));
        string_from_chars(&out)
    }

    /// The samples kept, received then sent, each as (tick, bytes).
    pub fn history(&self) -> (r: (Vec<(u64, u64)>, Vec<(u64, u64)>))
        ensures
            r.0@ == self.rx_spec(),
            r.1@ == self.tx_spec(),
    {
        (copy_samples(&self.rx_history), copy_samples(&self.tx_history))
    }

    /// The totals: received, sent.
    pub fn totals(&self) -> (r: (u64, u64))
        ensures
            r == self.totals_spec(),
    {
        (self.total_rx, self.total_tx)
    }

    /// The top of the value axis.
    pub fn axis_max(&self) -> (m: u64)
        ensures
            m == axis_top(self.rx_spec(), self.tx_spec()),
    {
        let a = history_max(&self.rx_history);
        let b = history_max(&self.tx_history);
        let m = if a >= b {
            a
        } else {
            b
        };
        if m >= 1024 {
            m
        } else {
            1024
        }
    }

    /// The labels of the value axis: `0`, half the top and the top.
    pub fn y_labels(&self) -> (v: Vec<String>)
        ensures
            v.len() == 3,
            v[0]@ == "0"@,
            v[1]@ == axis_text(scale_down(as_f64(axis_top(self.rx_spec(), self.tx_spec())), 1)),
            v[2]@ == axis_text(as_f64(axis_top(self.rx_spec(), self.tx_spec()))),
    {
        let top = int_to_float_exec(self.axis_max(), 53);
        let mut v: Vec<String> = Vec::new();
        v.push(String::from_str("0"));
        v.push(format_axis_label_of(scale_down_exec(top, 1)));
        v.push(format_axis_label_of(top));
        v
    }

    /// The labels of the time axis: the span, half of it, and `0s`.
    pub fn x_labels(&self) -> (v: Vec<String>)
        ensures
            v.len() == 3,
            v[0]@ == dec_digits(time_span(self.max_points_spec()) as nat) + "s"@,
            v[1]@ == dec_digits((time_span(self.max_points_spec()) / 2) as nat) + "s"@,
            v[2]@ == "0s"@,
    {
        let span: u64 = if self.max_points > 1_073_741_823 {
            2_147_483_647
        } else {
            2 * self.max_points as u64
        };
        let mut v: Vec<String> = Vec::new();
        let mut a: Vec<char> = Vec::new();
        push_dec(span as u128, &mut a);
        push_str(&mut a, "s");
        v.push(string_from_chars(&a));
        let mut b: Vec<char> = Vec::new();
        push_dec((span / 2) as u128, &mut b);
        push_str(&mut b, "s");
        v.push(string_from_chars(&b));
        v.push(String::from_str("0s"));
        v
    }

    /// The bounds of the time axis: the oldest received sample's tick (0
    /// without any) and the current tick, at least one more than that.
    pub fn x_bounds(&self) -> (r: (u64, u64))
        requires
            self.rx_spec().len() > 0 ==> self.rx_spec()[0].0 < u64::MAX,
        ensures
            r.0 == (if self.rx_spec().len() == 0 { 0 } else { self.rx_spec()[0].0 }),
            r.1 == (if self.tick_spec() >= r.0 + 1 { self.tick_spec() as int } else { r.0 + 1 }),
    {
        let x_min = if self.rx_history.len() == 0 {
            0
        } else {
            self.rx_history[0].0
        };
        let x_max = if self.tick >= x_min + 1 {
            self.tick
        } else {
            x_min + 1
        };
        (x_min, x_max)
    }
}

/// A copy of a history.
fn copy_samples(h: &Vec<(u64, u64)>) -> (r: Vec<(u64, u64)>)
    ensures
        r@ == h@,
{
    let mut r: Vec<(u64, u64)> = Vec::new();
    for i in 0..h.len()
        invariant
            r@ == h@.take(i as int),
    {
        r.push(h[i]);
        assert(h@.take(i + 1) =~= h@.take(i as int).push(h@[i as int]));
    }
    assert(h@.take(h.len() as int) =~= h@);
    r
}

/// The largest byte count of a history.
fn history_max(h: &Vec<(u64, u64)>) -> (m: u64)
    ensures
        m == max_bytes(h@),
{
    let mut m: u64 = 0;
    for i in 0..h.len()
        invariant
            m == max_bytes(h@.take(i as int)),
    {
        proof {
            assert(h@.take(i + 1).drop_last() =~= h@.take(i as int));
        }
        if h[i].1 > m {
            m = h[i].1;
        }
    }
    proof {
        assert(h@.take(h.len() as int) =~= h@);
    }
    m
}

/// A history that holds at most `max` samples still does after a sample
/// is added.
pub proof fn lemma_history_bounded(h: Seq<(u64, u64)>, sample: (u64, u64), max: usize)
    requires
        h.len() <= max,
    ensures
        pushed(h, sample, max).len() <= max,
        pushed(h, sample, max).len() == h.len() + 1 || pushed(h, sample, max).len() == h.len(),
{
}

/// The newest sample is always the one just added, once `max` is not zero.
pub proof fn lemma_history_newest(h: Seq<(u64, u64)>, sample: (u64, u64), max: usize)
    requires
        max >= 1,
        h.len() <= max,
    ensures
        pushed(h, sample, max).last() == sample,
{
}

/// A history of at most `max` samples, after one more, is the last
/// `min(max, len + 1)` samples of the old history with the new one at its
/// end.
pub proof fn lemma_history_window(h: Seq<(u64, u64)>, sample: (u64, u64), max: usize)
    requires
        h.len() <= max,
    ensures
        ({
            let all = h.push(sample);
            let keep = if max <= all.len() { max as int } else { all.len() as int };
            pushed(h, sample, max) == all.subrange(all.len() - keep, all.len() as int)
        }),
{
    let all = h.push(sample);
    if all.len() > max {
        assert(all.drop_first() =~= all.subrange(1, all.len() as int));
    } else {
        assert(all =~= all.subrange(0, all.len() as int));
    }
}


/// The largest byte count of a history is at least every sample's, and is
/// 0 or some sample's own.
pub proof fn lemma_max_bytes_is_max(h: Seq<(u64, u64)>)
    ensures
        forall|i: int| 0 <= i < h.len() ==> #[trigger] h[i].1 <= max_bytes(h),
        max_bytes(h) == 0 || exists|i: int| 0 <= i < h.len() && #[trigger] h[i].1 == max_bytes(h),
    decreases h.len(),
{
    if h.len() > 0 {
        let t = h.drop_last();
        lemma_max_bytes_is_max(t);
        assert forall|i: int| 0 <= i < h.len() implies #[trigger] h[i].1 <= max_bytes(h) by {
            if i < h.len() - 1 {
                assert(h[i] == t[i]);
            }
        }
        if max_bytes(h) != 0 && h.last().1 != max_bytes(h) {
            let i = choose|i: int| 0 <= i < t.len() && #[trigger] t[i].1 == max_bytes(t);
            assert(h[i] == t[i]);
        }
    }
}

/// The top of the value axis lies on or above every sample of both
/// directions and is at least one kilobyte; it is one kilobyte or the byte
/// count of some sample of either direction.
pub proof fn lemma_axis_top_covers(rx: Seq<(u64, u64)>, tx: Seq<(u64, u64)>)
    ensures
        forall|i: int| 0 <= i < rx.len() ==> #[trigger] rx[i].1 <= axis_top(rx, tx),
        forall|i: int| 0 <= i < tx.len() ==> #[trigger] tx[i].1 <= axis_top(rx, tx),
        axis_top(rx, tx) >= 1024,
        axis_top(rx, tx) == 1024
            || (exists|i: int| 0 <= i < rx.len() && #[trigger] rx[i].1 == axis_top(rx, tx))
            || (exists|i: int| 0 <= i < tx.len() && #[trigger] tx[i].1 == axis_top(rx, tx)),
{
    lemma_max_bytes_is_max(rx);
    lemma_max_bytes_is_max(tx);
}

} // verus!
