//! What can go wrong with level data.

use vstd::prelude::*;

verus! {

/// The ways in which level data can be refused.
#[derive(PartialEq, Eq, Structural, Copy, Clone, Debug)]
pub enum LevelError {
    /// The text of a piece holds a block that is not of the form `tile:count`,
    /// with a tile of the catalog and a count that a machine word can hold. The
    /// block is the first such block of the text: `block` counts the blocks
    /// before it in its row, `row` the rows before that row.
    MalformedLevelData { row: usize, block: usize },
    /// A piece without rows was to be placed in a level.
    EmptyPieceError,
}

} // verus!
