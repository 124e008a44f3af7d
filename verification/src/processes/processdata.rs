//! One row of the process list.

use vstd::prelude::*;
use crate::binary::{decode_f32, f32_from_bits, float_gt, float_gt_exec};
use crate::collection::joined;
use crate::text::{push_str, string_from_chars};

verus! {

/// A process as the list shows it. The usage percentages are `f32` bit
/// patterns.
#[derive(Debug, Default)]
pub struct CollectProcessData {
    pub pid: u32,
    pub command: String,
    pub program: String,
    pub mem_usage_percent: u32,
    pub cpu_usage_percent: u32,
    pub uid: Option<u32>,
    pub user: &'static str,
}

/// The list keeps a process that uses some CPU or some memory.
pub open spec fn is_busy(p: CollectProcessData) -> bool {
    float_gt(f32_from_bits(p.cpu_usage_percent), 0) || float_gt(
        f32_from_bits(p.mem_usage_percent),
        0,
    )
}

/// The user label of a user id.
pub open spec fn user_label(uid: Option<u32>) -> Seq<char> {
    match uid {
        Some(1000) => "Base User"@,
        Some(0) => "Root User"@,
        None => "Idk what's up"@,
        Some(_) => "Other User"@,
    }
}

impl CollectProcessData {
    /// A copy of the row.
    pub fn copy(&self) -> (r: Self)
        ensures
            r == *self,
    {
        CollectProcessData {
            pid: self.pid,
            command: self.command.clone(),
            program: self.program.clone(),
            mem_usage_percent: self.mem_usage_percent,
            cpu_usage_percent: self.cpu_usage_percent,
            uid: self.uid,
            user: self.user,
        }
    }

    /// Whether the process uses some CPU or some memory (the rows the list
    /// keeps).
    pub fn is_busy(&self) -> (r: bool)
        ensures
            r == is_busy(*self),
    {
        float_gt_exec(decode_f32(self.cpu_usage_percent), 0) || float_gt_exec(
            decode_f32(self.mem_usage_percent),
            0,
        )
    }

    /// The rows the list keeps, in order: those of processes that use some
    /// CPU or some memory.
    pub fn process_data(&mut self, rows: Vec<CollectProcessData>) -> (r: Vec<CollectProcessData>)
        ensures
            r@ == rows@.filter(|p: CollectProcessData| is_busy(p)),
            *final(self) == *old(self),
    {
        let ghost pred = |p: CollectProcessData| is_busy(p);
        let mut kept: Vec<CollectProcessData> = Vec::new();
        for i in 0..rows.len()
            invariant
                pred == (|p: CollectProcessData| is_busy(p)),
                kept@ == rows@.take(i as int).filter(pred),
        {
            proof {
                assert(rows@.take(i + 1) =~= rows@.take(i as int).push(rows@[i as int]));
                rows@.take(i as int).lemma_filter_push(rows@[i as int], pred);
            }
            if rows[i].is_busy() {
                kept.push(rows[i].copy());
            }
        }
        assert(rows@.take(rows.len() as int) =~= rows@);
        kept
    }

    /// The state of the process: not known.
    pub fn process_status(&mut self) -> (s: &'static str)
        ensures
            s@ == ""@,
            *final(self) == *old(self),
    {
        ""
    }
}

/// The command line of a process: its arguments joined by spaces.
pub fn command_line(args: &Vec<String>) -> (s: String)
    ensures
        s@ == joined(args@.map_values(|a: String| a@), seq![' ']),
{
    let ghost parts = args@.map_values(|a: String| a@);
    let mut out: Vec<char> = Vec::new();
    for i in 0..args.len()
        invariant
            parts == args@.map_values(|a: String| a@),
            out@ == joined(parts.take(i as int), seq![' ']),
    {
        if i > 0 {
            out.push(' ');
        }
        push_str(&mut out, args[i].as_str());
        proof {
            let t = parts.take(i + 1);
            assert(t.drop_last() =~= parts.take(i as int));
            if i == 0 {
                assert(t =~= seq![args@[0]@]);
            }
        }
    }
    assert(parts.take(args.len() as int) =~= parts);
    string_from_chars(&out)
}

/// The user label of a user id: the base user (1000), root (0), another
/// user, or unknown.
pub fn uid_to_user(uid: Option<u32>) -> (s: &'static str)
    ensures
        s@ == user_label(uid),
{
    match uid {
        Some(1000) => "Base User",
        Some(0) => "Root User",
        None => "Idk what's up",
        Some(_) => "Other User",
    }
}

} // verus!
