//! The "About" pop-up.

use vstd::prelude::*;

verus! {

/// Whether the about pop-up is shown.
#[derive(Default)]
pub struct AboutPopUp {
    pub visable: bool,
}

} // verus!
