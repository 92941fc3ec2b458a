//! Small shared play-mode state: whether the data screen is open, and which
//! party member it shows (and picks items up).
use vstd::prelude::*;

verus! {

/// Whether the data screen (inventory / status overlay) is open. The world
/// keeps running while it is up; only movement and pickup pause.
#[derive(Clone, Copy, Debug, PartialEq, Eq, Structural)]
pub struct DataScreen {
    pub open: bool,
}

impl Default for DataScreen {
    fn default() -> (r: Self)
        ensures
            !r.open,
    {
        DataScreen { open: false }
    }
}

/// Which party member the data screen shows and which one picks items up.
#[derive(Clone, Copy, Debug, PartialEq, Eq, Structural)]
pub struct SelectedMember {
    pub index: usize,
}

impl Default for SelectedMember {
    fn default() -> (r: Self)
        ensures
            r.index == 0,
    {
        SelectedMember { index: 0 }
    }
}

} // verus!
