//! Where on the screen a part of the display is placed.

use vstd::prelude::*;

verus! {

/// The top left cell of a region of the screen.
#[derive(Clone, Copy, Debug, PartialEq, Eq, Structural)]
pub struct Section {
    pub x: u16,
    pub y: u16,
}

impl Default for Section {
    /// The region at the origin of the screen.
    fn default() -> (section: Section)
        ensures
            section == (Section { x: 0, y: 0 }),
    {
        Section { x: 0, y: 0 }
    }
}

} // verus!
