//! Network traffic, summed over the interfaces, and the local address line.

use vstd::prelude::*;
use crate::text::{push_str, string_from_chars};

verus! {

/// The first components summed.
pub open spec fn sum_first(s: Seq<(u64, u64)>) -> nat
    decreases s.len(),
{
    if s.len() == 0 {
        0
    } else {
        sum_first(s.drop_last()) + s.last().0 as nat
    }
}

/// The second components summed.
pub open spec fn sum_second(s: Seq<(u64, u64)>) -> nat
    decreases s.len(),
{
    if s.len() == 0 {
        0
    } else {
        sum_second(s.drop_last()) + s.last().1 as nat
    }
}

proof fn lemma_sums_grow(s: Seq<(u64, u64)>, i: int)
    requires
        0 <= i <= s.len(),
    ensures
        sum_first(s.take(i)) <= sum_first(s),
        sum_second(s.take(i)) <= sum_second(s),
    decreases s.len() - i,
{
    if i < s.len() {
        lemma_sums_grow(s, i + 1);
        assert(s.take(i + 1).drop_last() =~= s.take(i));
    } else {
        assert(s.take(i) =~= s);
    }
}

/// The traffic of the machine: the latest interval's and the totals,
/// received and transmitted, each summed over the interfaces.
pub struct NetworkHarvester {
    pub curr_rx: u64,
    pub curr_tx: u64,
    pub total_rx: u64,
    pub total_tx: u64,
}

impl Default for NetworkHarvester {
    fn default() -> (h: Self)
        ensures
            h.curr_rx == 0 && h.curr_tx == 0 && h.total_rx == 0 && h.total_tx == 0,
    {
        NetworkHarvester { curr_rx: 0, curr_tx: 0, total_rx: 0, total_tx: 0 }
    }
}

/// The readings summed: received first, transmitted second.
fn sum_readings(readings: &Vec<(u64, u64)>) -> (r: (u64, u64))
    requires
        sum_first(readings@) <= u64::MAX,
        sum_second(readings@) <= u64::MAX,
    ensures
        r.0 == sum_first(readings@),
        r.1 == sum_second(readings@),
{
    let mut rx: u64 = 0;
    let mut tx: u64 = 0;
    for i in 0..readings.len()
        invariant
            sum_first(readings@) <= u64::MAX,
            sum_second(readings@) <= u64::MAX,
            rx == sum_first(readings@.take(i as int)),
            tx == sum_second(readings@.take(i as int)),
    {
        proof {
            lemma_sums_grow(readings@, i + 1);
            assert(readings@.take(i + 1).drop_last() =~= readings@.take(i as int));
        }
        rx = rx + readings[i].0;
        tx = tx + readings[i].1;
    }
    assert(readings@.take(readings.len() as int) =~= readings@);
    (rx, tx)
}

impl NetworkHarvester {
    /// Records the latest interval's traffic, given per interface as
    /// (received, transmitted) bytes, and returns `[received, transmitted]`
    /// summed over the interfaces.
    pub fn get_curr_network_data(&mut self, readings: &Vec<(u64, u64)>) -> (v: Vec<u64>)
        requires
            sum_first(readings@) <= u64::MAX,
            sum_second(readings@) <= u64::MAX,
        ensures
            final(self).curr_rx == sum_first(readings@),
            final(self).curr_tx == sum_second(readings@),
            final(self).total_rx == old(self).total_rx,
            final(self).total_tx == old(self).total_tx,
            v@ == seq![final(self).curr_rx, final(self).curr_tx],
    {
        let (rx, tx) = sum_readings(readings);
        self.curr_rx = rx;
        self.curr_tx = tx;
        let v = vec![rx, tx];
        assert(v@ =~= seq![rx, tx]);
        v
    }

    /// Records the total traffic, given per interface as (received,
    /// transmitted) bytes, and returns `[received, transmitted]` summed
    /// over the interfaces.
    pub fn get_total_network_data(&mut self, readings: &Vec<(u64, u64)>) -> (v: Vec<u64>)
        requires
            sum_first(readings@) <= u64::MAX,
            sum_second(readings@) <= u64::MAX,
        ensures
            final(self).total_rx == sum_first(readings@),
            final(self).total_tx == sum_second(readings@),
            final(self).curr_rx == old(self).curr_rx,
            final(self).curr_tx == old(self).curr_tx,
            v@ == seq![final(self).total_rx, final(self).total_tx],
    {
        let (rx, tx) = sum_readings(readings);
        self.total_rx = rx;
        self.total_tx = tx;
        let v = vec![rx, tx];
        assert(v@ =~= seq![rx, tx]);
        v
    }

    /// The address line: `"Local IP address: {ip}"` for a known address,
    /// a note where it could not be found.
    pub fn get_ip_adress(&self, ip: Option<String>) -> (s: String)
        ensures
            ip matches Some(a) ==> s@ == "Local IP address: "@ + a@,
            ip is None ==> s@ == "Unable to get local IP address"@,
    {
        match ip {
            Some(a) => {
                let mut out: Vec<char> = Vec::new();
                push_str(&mut out, "Local IP address: ");
                push_str(&mut out, a.as_str());
                string_from_chars(&out)
            },
            None => String::from_str("Unable to get local IP address"),
        }
    }
}

} // verus!
