//! Level pieces: rectangular blocks of tile types from which levels are stacked.

use vstd::prelude::*;
use crate::tile::TileType;

verus! {

/// A block of tile types, row by row from the top. A piece is meant to be
/// rectangular; neither the type nor the text format enforces it.
#[derive(Debug)]
pub struct LevelPiece {
    pub data: Vec<Vec<TileType>>,
}

impl LevelPiece {
    /// The rows of the piece.
    pub open spec fn rows(&self) -> Seq<Seq<TileType>> {
        Seq::new(self.data.len() as nat, |y: int| self.data[y]@)
    }

    /// Whether all rows of the piece have the same length.
    pub open spec fn is_rectangular(&self) -> bool {
        forall|y: int| 0 <= y < self.rows().len() ==> (#[trigger] self.rows()[y]).len()
            == self.rows()[0].len()
    }

    /// The width of the piece: the length of its first row, 0 for a piece without
    /// rows.
    pub fn get_width(&self) -> (width: usize)
        ensures
            width == (if self.rows().len() == 0 {
                0
            } else {
                self.rows()[0].len()
            }),
    {
        if self.data.len() == 0 {
            0
        } else {
            self.data[0].len()
        }
    }
}

impl Clone for LevelPiece {
    /// Copies the piece: the copy has the same rows.
    fn clone(&self) -> (copy: Self)
        ensures
            copy.rows() == self.rows(),
    {
        let mut data: Vec<Vec<TileType>> = Vec::new();
        let mut y: usize = 0;
        while y < self.data.len()
            invariant
                y <= self.data.len(),
                data@.len() == y,
                forall|r: int| 0 <= r < y ==> (#[trigger] data@[r])@ == self.data@[r]@,
            decreases self.data.len() - y,
        {
            let source = &self.data[y];
            let mut row: Vec<TileType> = Vec::new();
            let mut x: usize = 0;
            while x < source.len()
                invariant
                    x <= source.len(),
                    row@ == source@.take(x as int),
                decreases source.len() - x,
            {
                row.push(source[x]);
                assert(row@ =~= source@.take(x + 1));
                x += 1;
            }
            assert(source@.take(x as int) =~= source@);
            data.push(row);
            y += 1;
        }
        let copy = LevelPiece { data };
        assert(copy.rows() =~= self.rows());
        copy
    }
}

} // verus!
