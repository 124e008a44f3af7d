//! Operating-system facts: the kernel version and the host name.

use vstd::prelude::*;

verus! {

/// Kernel and host information; the system supplies the values.
pub struct OsInfo;

} // verus!
