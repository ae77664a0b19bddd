//! What a session can be configured with, and how a configuration can fail.

use vstd::prelude::*;

verus! {

/// Why a session could not be set up.
#[derive(Clone, Copy, Debug, PartialEq, Eq, Structural)]
pub enum ConfigError {
    /// Fixed-count chunking was asked for groups of zero words.
    ZeroChunkSize,
    /// The visible width of a window or of a wrapped line is zero.
    ZeroVisibleWidth,
    /// The word source holds no word at all.
    EmptyWordSource,
    /// The session has left the loading state and cannot be loaded again
    /// before it is reset.
    NotLoading,
}

/// The width of the sliding window where none is chosen.
pub const DEFAULT_VISIBLE_WIDTH: u16 = 40;

/// How far right of its home column the cursor may stand before the sliding
/// window scrolls, where nothing is chosen.
pub const DEFAULT_THRESHOLD: u16 = 15;

/// How the text is cut up and moved through, chosen once for a session.
#[derive(Clone, Copy, Debug, PartialEq, Eq, Structural)]
pub enum Mode {
    /// A queue of lines of that many words each.
    Chunks(usize),
    /// A queue of lines wrapped to at most that many characters.
    Lines(usize),
    /// One continuous text behind a window of `visible_width` characters,
    /// which scrolls once the cursor stands more than `threshold` columns
    /// right of its home column. A threshold that reaches the window's
    /// width counts as the width less one.
    Scroll { visible_width: u16, threshold: u16 },
}

} // verus!
