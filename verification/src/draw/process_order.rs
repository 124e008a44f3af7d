//! The process list in order: the processes keyed by place in a
//! `BTreeMap`, read back in key order.

use vstd::prelude::*;
use std::collections::BTreeMap;
use vstd::std_specs::cmp::OrdSpec;
use vstd::std_specs::iter::IteratorSpec;
use crate::draw::process_tree::{
    has_key, key_before, key_int, key_same, primary_key, sort_inv, ProcessColumn,
};
use crate::processes::processdata::CollectProcessData;

verus! {

broadcast use vstd::std_specs::btree::group_btree_axioms, vstd::laws_cmp::group_laws_cmp;

/// The map key of a process: its `key_int` negated, so that larger values
/// come first, then its process id.
pub open spec fn map_key(p: CollectProcessData, col: ProcessColumn) -> (i128, u32) {
    ((-key_int(p, col)) as i128, p.pid)
}

/// `key_int` of the process fits the map key.
pub open spec fn key_in_range(p: CollectProcessData, col: ProcessColumn) -> bool {
    i128::MIN < key_int(p, col) <= i128::MAX
}

/// Map keys of processes whose `key_int` fits are equal exactly when the
/// processes have the same place.
proof fn lemma_map_key_same(a: CollectProcessData, b: CollectProcessData, col: ProcessColumn)
    requires
        key_in_range(a, col),
        key_in_range(b, col),
    ensures
        (map_key(a, col) == map_key(b, col)) == key_same(a, b, col),
{
}

/// Map keys in increasing order put processes in list order.
proof fn lemma_map_key_before(a: CollectProcessData, b: CollectProcessData, col: ProcessColumn)
    requires
        key_in_range(a, col),
        key_in_range(b, col),
        map_key(a, col).0 < map_key(b, col).0 || (map_key(a, col).0 == map_key(b, col).0
            && map_key(a, col).1 < map_key(b, col).1),
    ensures
        key_before(a, b, col),
{
}

/// Two entries of an increasing sequence of pairs are in lexicographic
/// order.
proof fn lemma_increasing_pairs(keys: Seq<(i128, u32)>, a: int, b: int)
    requires
        vstd::std_specs::btree::increasing_seq(keys),
        0 <= a < b < keys.len(),
    ensures
        keys[a].0 < keys[b].0 || (keys[a].0 == keys[b].0 && keys[a].1 < keys[b].1),
{
    assert(keys[a].cmp_spec(&keys[b]) is Less);
}

/// Sorts processes in list order, keeping one per place: the last given.
pub(crate) fn sort_by_place(
    processes: &Vec<CollectProcessData>,
    col: ProcessColumn,
) -> (out: Vec<CollectProcessData>)
    ensures
        exists|srcs: Seq<int>| sort_inv(out@, srcs, processes@, processes@.len() as int, col),
{
    let n = processes.len();
    let mut m: BTreeMap<(i128, u32), CollectProcessData> = BTreeMap::new();
    let ghost mut src: Map<(i128, u32), int> = Map::empty();
    for i in 0..n
        invariant
            n == processes.len(),
            forall|t: int| 0 <= t < i ==> key_in_range(#[trigger] processes@[t], col),
            forall|k: (i128, u32)|
                #[trigger] m@.contains_key(k) <==> exists|t: int|
                    0 <= t < i && #[trigger] map_key(processes@[t], col) == k,
            m@.dom() == src.dom(),
            forall|k: (i128, u32)|
                #[trigger] m@.contains_key(k) ==> {
                    &&& 0 <= src[k] < i
                    &&& processes@[src[k]] == m@[k]
                    &&& map_key(processes@[src[k]], col) == k
                    &&& forall|t: int| src[k] < t < i ==> #[trigger] map_key(processes@[t], col) != k
                },
    {
        let p = processes[i].copy();
        let k = primary_key(&p, col);
        let key = (-k, p.pid);
        let ghost before = m@;
        assert(map_key(processes@[i as int], col) == key);
        m.insert(key, p);
        proof {
            src = src.insert(key, i as int);
            assert forall|q: (i128, u32)| #[trigger] m@.contains_key(q) implies {
                &&& 0 <= src[q] < i + 1
                &&& processes@[src[q]] == m@[q]
                &&& map_key(processes@[src[q]], col) == q
                &&& forall|t: int| src[q] < t < i + 1 ==> #[trigger] map_key(processes@[t], col) != q
            } by {
                if q != key {
                    assert(before.contains_key(q));
                }
            }
            assert forall|q: (i128, u32)| #[trigger] m@.contains_key(q) <==> exists|t: int|
                0 <= t < i + 1 && #[trigger] map_key(processes@[t], col) == q by {
                if q != key && m@.contains_key(q) {
                    assert(before.contains_key(q));
                }
                if exists|t: int| 0 <= t < i + 1 && #[trigger] map_key(processes@[t], col) == q {
                    let t = choose|t: int| 0 <= t < i + 1 && #[trigger] map_key(processes@[t], col) == q;
                    if t < i {
                        assert(before.contains_key(q));
                    }
                }
            }
            assert(m@.dom() =~= src.dom());
        }
    }
    let vals = m.values();
    let ghost keys = choose|keys: Seq<(i128, u32)>|
        {
            &&& vstd::std_specs::btree::increasing_seq(keys)
            &&& keys.to_set() == m@.dom()
            &&& keys.no_duplicates()
            &&& vals.remaining() == keys.map(|j: int, q: (i128, u32)| &m@[q])
        };
    let ghost want = vals.remaining();
    let mut out: Vec<CollectProcessData> = Vec::new();
    for v in it: vals
        invariant
            it.seq() == want,
            want == keys.map(|j: int, q: (i128, u32)| &m@[q]),
            out@.len() == it.index(),
            forall|j: int| 0 <= j < out@.len() ==> #[trigger] out@[j] == *want[j],
    {
        out.push(v.copy());
    }
    assert(out@.len() == keys.len());
    assert forall|j: int| 0 <= j < out@.len() implies #[trigger] out@[j] == m@[keys[j]] by {
        assert(*want[j] == m@[keys[j]]);
    }
    let ghost srcs = keys.map(|j: int, q: (i128, u32)| src[q]);
    proof {
        assert forall|a: int, b: int| 0 <= a < b < out@.len() implies key_before(
            #[trigger] out@[a],
            #[trigger] out@[b],
            col,
        ) by {
            lemma_increasing_pairs(keys, a, b);
            assert(keys.to_set().contains(keys[a]));
            assert(keys.to_set().contains(keys[b]));
            lemma_map_key_before(out@[a], out@[b], col);
        }
        assert forall|a: int| 0 <= a < out@.len() implies 0 <= #[trigger] srcs[a] < n
            && processes@[srcs[a]] == out@[a] && forall|t: int|
            srcs[a] < t < n ==> !key_same(#[trigger] processes@[t], out@[a], col) by {
            let q = keys[a];
            assert(keys.to_set().contains(q));
            assert forall|t: int| srcs[a] < t < n implies !key_same(#[trigger] processes@[t], out@[a], col) by {
                lemma_map_key_same(processes@[t], out@[a], col);
            }
        }
        assert forall|t: int| 0 <= t < n implies has_key(out@, #[trigger] processes@[t], col) by {
            let q = map_key(processes@[t], col);
            assert(m@.contains_key(q));
            assert(keys.to_set().contains(q));
            let a = choose|a: int| 0 <= a < keys.len() && keys[a] == q;
            lemma_map_key_same(out@[a], processes@[t], col);
            assert(0 <= a < out@.len() && key_same(out@[a], processes@[t], col));
        }
        assert(sort_inv(out@, srcs, processes@, n as int, col));
    }
    out
}

} // verus!
