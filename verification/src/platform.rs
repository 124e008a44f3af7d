//! The operating system the monitor runs on, where the rules differ.

use vstd::prelude::*;

verus! {

/// The operating system: its disks and sensors are named differently.
#[derive(Clone, Copy, Debug, PartialEq, Eq, Structural)]
pub enum Platform {
    Linux,
    MacOs,
}

} // verus!
