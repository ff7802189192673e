//! Coordinates shared by the buffer, the renderer and the commands.

use vstd::prelude::*;

verus! {

/// Index of a line of the buffer, counted from zero.
pub type LineIdx = usize;

/// Index of a grapheme within a line, counted from zero. Where a location is
/// turned into an offset of the text, the index is added to the offset at
/// which the line starts.
pub type GraphemeIdx = usize;

/// Index of a display column, counted from zero.
pub type ColIdx = usize;

/// A cursor or edit position: a line and a grapheme within it.
#[derive(Clone, Copy, Debug, PartialEq, Eq, Structural)]
pub struct Location {
    pub line_idx: LineIdx,
    pub grapheme_idx: GraphemeIdx,
}

/// The extent of the terminal, in rows and columns.
#[derive(Clone, Copy, Debug, PartialEq, Eq, Structural)]
pub struct Size {
    pub height: usize,
    pub width: usize,
}

} // verus!
