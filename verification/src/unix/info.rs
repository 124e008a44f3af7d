//! The kernel and host lines of the title bar.

use vstd::prelude::*;
use crate::text::{push_str, string_from_chars};

verus! {

/// Kernel and host information as title lines.
pub trait OsInfo {
    fn display_kernel(&self) -> Vec<String>;

    fn display_host_name(&self) -> Vec<String>;
}

/// The title lines of an optional value: an empty line, then the value or
/// the fallback text.
pub fn os_lines(value: Option<String>, fallback: &str) -> (v: Vec<String>)
    ensures
        v.len() == 2,
        v[0]@ == Seq::<char>::empty(),
        v[1]@ == (match value {
            Some(s) => s@,
            None => fallback@,
        }),
{
    let mut v: Vec<String> = Vec::new();
    v.push(String::new());
    match value {
        Some(s) => v.push(s),
        None => {
            let mut out: Vec<char> = Vec::new();
            push_str(&mut out, fallback);
            v.push(string_from_chars(&out));
        },
    }
    v
}

} // verus!
