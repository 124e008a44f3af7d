//! Temperature readings, one per sensor label.

use vstd::prelude::*;
use crate::draw::widgets::temp_widget::TempReading;

verus! {

/// The sensors of the machine; their readings come from the system.
pub struct TempData;

/// The value of the last reading labelled `l`.
pub open spec fn last_value(r: Seq<TempReading>, l: Seq<char>) -> Option<u32>
    decreases r.len(),
{
    if r.len() == 0 {
        None
    } else if r.last().0@ == l {
        r.last().1
    } else {
        last_value(r.drop_last(), l)
    }
}

/// Some reading is labelled `l`.
pub open spec fn has_label(r: Seq<TempReading>, l: Seq<char>) -> bool {
    exists|k: int| 0 <= k < r.len() && #[trigger] r[k].0@ == l
}

/// `v` holds what a map from label to value holds once the readings `r`
/// were put in it in order: one entry per label, with the value of the
/// last reading so labelled.
pub open spec fn is_temp_map(v: Seq<TempReading>, r: Seq<TempReading>) -> bool {
    &&& forall|i: int, j: int| 0 <= i < j < v.len() ==> #[trigger] v[i].0@ != #[trigger] v[j].0@
    &&& forall|i: int|
        0 <= i < v.len() ==> has_label(r, #[trigger] v[i].0@) && v[i].1 == last_value(r, v[i].0@)
    &&& forall|k: int| 0 <= k < r.len() ==> exists|i: int| 0 <= i < v.len() && #[trigger] v[i].0@ == #[trigger] r[k].0@
}

/// The entries of `v` come in the order their labels first appear in `r`:
/// each reading of an entry's label comes after some reading of every
/// earlier entry's label.
pub open spec fn in_first_seen_order(v: Seq<TempReading>, r: Seq<TempReading>) -> bool {
    forall|i: int, j: int, q: int|
        0 <= i < j < v.len() && 0 <= q < r.len() && #[trigger] r[q].0@ == #[trigger] v[j].0@
            ==> has_label(r.take(q), #[trigger] v[i].0@)
}

proof fn lemma_last_value_push(r: Seq<TempReading>, x: TempReading)
    ensures
        last_value(r.push(x), x.0@) == x.1,
        forall|l: Seq<char>| l != x.0@ ==> last_value(r.push(x), l) == last_value(r, l),
        forall|l: Seq<char>| has_label(r, l) ==> has_label(r.push(x), l),
        has_label(r.push(x), x.0@),
{
    assert(r.push(x).drop_last() =~= r);
    assert forall|l: Seq<char>| has_label(r, l) implies has_label(r.push(x), l) by {
        let w = choose|w: int| 0 <= w < r.len() && #[trigger] r[w].0@ == l;
        assert(r.push(x)[w] == r[w]);
    }
    assert(r.push(x)[r.len() as int] == x);
}

/// A reading whose label has an entry updates that entry.
proof fn lemma_step_update(before: Seq<TempReading>, rk: Seq<TempReading>, x: TempReading, found: int)
    requires
        is_temp_map(before, rk),
        in_first_seen_order(before, rk),
        0 <= found < before.len(),
        before[found].0@ == x.0@,
    ensures
        is_temp_map(before.update(found, x), rk.push(x)),
        in_first_seen_order(before.update(found, x), rk.push(x)),
{
    let after = before.update(found, x);
    let rk1 = rk.push(x);
    lemma_last_value_push(rk, x);
    assert forall|a: int, b: int| 0 <= a < b < after.len() implies #[trigger] after[a].0@ != #[trigger] after[b].0@ by {
        assert(before[a].0@ != before[b].0@);
    }
    assert forall|i: int| 0 <= i < after.len() implies has_label(rk1, #[trigger] after[i].0@) && after[i].1 == last_value(rk1, after[i].0@) by {
        if i != found {
            assert(before[i].0@ != before[found].0@ || i == found);
            if i < found {
                assert(before[i].0@ != before[found].0@);
            } else {
                assert(before[found].0@ != before[i].0@);
            }
        }
    }
    assert forall|q: int| 0 <= q < rk1.len() implies exists|p: int| 0 <= p < after.len() && #[trigger] after[p].0@ == #[trigger] rk1[q].0@ by {
        if q < rk.len() {
            assert(rk1[q] == rk[q]);
            let p = choose|p: int| 0 <= p < before.len() && #[trigger] before[p].0@ == #[trigger] rk[q].0@;
            assert(after[p].0@ == before[p].0@);
        } else {
            assert(after[found].0@ == rk1[q].0@);
        }
    }
    assert forall|a: int, b: int, q: int|
        0 <= a < b < after.len() && 0 <= q < rk1.len() && #[trigger] rk1[q].0@ == #[trigger] after[b].0@
        implies has_label(rk1.take(q), #[trigger] after[a].0@) by {
        assert(after[a].0@ == before[a].0@);
        assert(after[b].0@ == before[b].0@);
        if q < rk.len() {
            assert(rk1[q] == rk[q]);
            assert(rk1.take(q) =~= rk.take(q));
        } else {
            assert(rk1.take(q) =~= rk);
        }
    }
}

/// A reading with a new label adds an entry at the end.
proof fn lemma_step_add(before: Seq<TempReading>, rk: Seq<TempReading>, x: TempReading)
    requires
        is_temp_map(before, rk),
        in_first_seen_order(before, rk),
        forall|j: int| 0 <= j < before.len() ==> before[j].0@ != x.0@,
    ensures
        is_temp_map(before.push(x), rk.push(x)),
        in_first_seen_order(before.push(x), rk.push(x)),
{
    let after = before.push(x);
    let rk1 = rk.push(x);
    lemma_last_value_push(rk, x);
    assert forall|a: int, b: int| 0 <= a < b < after.len() implies #[trigger] after[a].0@ != #[trigger] after[b].0@ by {
        if b < before.len() {
            assert(before[a].0@ != before[b].0@);
        }
    }
    assert forall|i: int| 0 <= i < after.len() implies has_label(rk1, #[trigger] after[i].0@) && after[i].1 == last_value(rk1, after[i].0@) by {
        if i < before.len() {
            assert(after[i] == before[i]);
        }
    }
    assert forall|q: int| 0 <= q < rk1.len() implies exists|p: int| 0 <= p < after.len() && #[trigger] after[p].0@ == #[trigger] rk1[q].0@ by {
        if q < rk.len() {
            assert(rk1[q] == rk[q]);
            let p = choose|p: int| 0 <= p < before.len() && #[trigger] before[p].0@ == #[trigger] rk[q].0@;
            assert(after[p] == before[p]);
        } else {
            assert(after[before.len() as int].0@ == rk1[q].0@);
        }
    }
    assert forall|a: int, b: int, q: int|
        0 <= a < b < after.len() && 0 <= q < rk1.len() && #[trigger] rk1[q].0@ == #[trigger] after[b].0@
        implies has_label(rk1.take(q), #[trigger] after[a].0@) by {
        assert(after[a] == before[a]);
        if q < rk.len() {
            assert(rk1[q] == rk[q]);
            assert(rk1.take(q) =~= rk.take(q));
            if b == before.len() {
                assert(rk[q].0@ == x.0@);
                let p = choose|p: int| 0 <= p < before.len() && #[trigger] before[p].0@ == #[trigger] rk[q].0@;
                assert(before[p].0@ != x.0@);
            } else {
                assert(after[b] == before[b]);
            }
        } else {
            assert(rk1.take(q) =~= rk);
        }
    }
}

impl TempData {
    /// The readings keyed by label, the last reading of a label winning;
    /// `None` where there is no reading. Entries come in the order their
    /// labels first appear.
    pub fn all_temps(readings: &Vec<TempReading>) -> (r: Option<Vec<TempReading>>)
        ensures
            readings.len() == 0 <==> r is None,
            r matches Some(v) ==> is_temp_map(v@, readings@) && in_first_seen_order(v@, readings@),
    {
        let mut v: Vec<TempReading> = Vec::new();
        for k in 0..readings.len()
            invariant
                is_temp_map(v@, readings@.take(k as int)),
                in_first_seen_order(v@, readings@.take(k as int)),
        {
            let ghost before = v@;
            assert(readings@.take(k + 1) =~= readings@.take(k as int).push(readings@[k as int]));
            let label = &readings[k].0;
            let mut found: usize = v.len();
            let mut i: usize = 0;
            while i < v.len()
                invariant
                    i <= v.len(),
                    v@ == before,
                    found <= v.len(),
                    found == v.len() ==> forall|j: int| 0 <= j < i ==> v@[j].0@ != label@,
                    found < v.len() ==> v@[found as int].0@ == label@,
                decreases v.len() - i,
            {
                if found == v.len() && v[i].0 == *label {
                    found = i;
                }
                i = i + 1;
            }
            let entry = (label.clone(), readings[k].1);
            assert(entry == readings@[k as int]);
            if found < v.len() {
                v.set(found, entry);
                proof {
                    lemma_step_update(before, readings@.take(k as int), readings@[k as int], found as int);
                }
            } else {
                v.push(entry);
                proof {
                    lemma_step_add(before, readings@.take(k as int), readings@[k as int]);
                }
            }
        }
        assert(readings@.take(readings.len() as int) =~= readings@);
        if v.len() > 0 {
            assert(has_label(readings@, v@[0].0@));
        }
        if readings.len() > 0 {
            let ghost r0 = readings@[0].0@;
            assert(exists|i: int| 0 <= i < v@.len() && #[trigger] v@[i].0@ == r0);
        }
        if v.len() == 0 {
            None
        } else {
            Some(v)
        }
    }
}

} // verus!
