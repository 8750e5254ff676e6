use vstd::prelude::*;

verus! {

/// One cell of the board: empty, or the colour of a locked piece.
///
/// Colour is purely cosmetic: nothing in the rules depends on which of the
/// three colours a cell holds, only on whether it is `Empty`.
#[derive(Clone, Copy, PartialEq, Eq, Structural, Debug)]
pub enum BlockType {
    Empty,
    Blue,
    Green,
    Orange,
}

impl BlockType {
    /// The colour selected by a draw `n`; any out-of-range draw maps to `Empty`.
    pub open spec fn block_type_of(n: int) -> BlockType {
        if n == 0 {
            BlockType::Blue
        } else if n == 1 {
            BlockType::Green
        } else if n == 2 {
            BlockType::Orange
        } else {
            BlockType::Empty
        }
    }

    /// Turns a colour index into a cell colour.
    pub fn get_block_type(n: usize) -> (b: BlockType)
        ensures
            b == BlockType::block_type_of(n as int),
    {
        match n {
            0 => BlockType::Blue,
            1 => BlockType::Green,
            2 => BlockType::Orange,
            _ => BlockType::Empty,
        }
    }
}

} // verus!
