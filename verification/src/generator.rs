//! Building a level from pieces: the pieces are stacked in order, the textures
//! are resolved, and the level is drawn in one of a few colours, picked at
//! random.

use vstd::prelude::*;
use crate::autotile::grid_height;
use crate::autotile::resolved_grid;
use crate::error::LevelError;
use crate::level::placed_rows;
use crate::level::unlit_rows;
use crate::level::Level;
use crate::level::Rgb;
use crate::piece::LevelPiece;
use crate::tile::TileType;

verus! {

/// Number of colours that a generator picks from.
pub const COLOR_COUNT: usize = 4;

/// What levels are built from: the pieces that are stacked, and the colours that
/// a level can be drawn in.
#[derive(Debug)]
pub struct Generator {
    pub pieces: Vec<LevelPiece>,
    pub colors: [Rgb; 4],
}

/// Draws a random number below `bound` with `fastrand::usize`, called with the
/// range that ends before `bound`.
///
/// The range must not be empty, or `fastrand` panics; so `bound` must be
/// positive. The contract claims only what holds of every draw: the number lies
/// within the range. Two draws may differ.
#[verifier::external_body]
fn random_below(bound: usize) -> (index: usize)
    requires
        bound > 0,
    ensures
        index < bound,
{
    fastrand::usize(..bound)
}

/// The rows of pieces that are stacked in order, from the top.
pub open spec fn stacked_rows(pieces: Seq<LevelPiece>) -> Seq<Seq<TileType>>
    decreases pieces.len(),
{
    if pieces.len() == 0 {
        Seq::<Seq<TileType>>::empty()
    } else {
        stacked_rows(pieces.drop_last()) + pieces.last().rows()
    }
}

/// The sum of the heights of pieces.
pub open spec fn total_height(pieces: Seq<LevelPiece>) -> nat
    decreases pieces.len(),
{
    if pieces.len() == 0 {
        0
    } else {
        total_height(pieces.drop_last()) + pieces.last().rows().len()
    }
}

/// Whether each of the pieces has a row.
pub open spec fn all_have_rows(pieces: Seq<LevelPiece>) -> bool {
    forall|i: int| 0 <= i < pieces.len() ==> (#[trigger] pieces[i]).rows().len() > 0
}

/// Whether a level is the one that is built from pieces in a colour: the pieces
/// stacked, every texture resolved, every tile at the greatest brightness.
pub open spec fn is_built_from(level: Level, pieces: Seq<LevelPiece>, color: Rgb) -> bool {
    &&& level.tiles() == resolved_grid(placed_rows(stacked_rows(pieces)))
    &&& level.lightmap() == unlit_rows(stacked_rows(pieces))
    &&& level.display_color() == color
}

/// The height of a stack of pieces is the sum of the heights of the pieces.
pub proof fn lemma_stacked_height(pieces: Seq<LevelPiece>)
    ensures
        stacked_rows(pieces).len() == total_height(pieces),
        placed_rows(stacked_rows(pieces)).len() == total_height(pieces),
        resolved_grid(placed_rows(stacked_rows(pieces))).len() == total_height(pieces),
    decreases pieces.len(),
{
    if pieces.len() > 0 {
        lemma_stacked_height(pieces.drop_last());
    }
}

impl Generator {
    /// Builds a level of the generator's pieces in the colour `color`.
    ///
    /// The pieces are placed one below the other in their order, then the
    /// texture of every tile is resolved. If one of the pieces has no rows, no
    /// level is built.
    pub fn build_level_in(&self, color: Rgb) -> (result: Result<Level, LevelError>)
        ensures
            result is Ok <==> all_have_rows(self.pieces@),
            match result {
                Ok(level) => {
                    &&& is_built_from(level, self.pieces@, color)
                    &&& grid_height(level.tiles()) == total_height(self.pieces@)
                },
                Err(error) => error == LevelError::EmptyPieceError,
            },
    {
        let mut level = Level::new(color);
        let mut i: usize = 0;
        assert(level.tiles() =~= placed_rows(stacked_rows(self.pieces@.take(0))));
        assert(level.lightmap() =~= unlit_rows(stacked_rows(self.pieces@.take(0))));
        while i < self.pieces.len()
            invariant
                i <= self.pieces.len(),
                all_have_rows(self.pieces@.take(i as int)),
                level.tiles() == placed_rows(stacked_rows(self.pieces@.take(i as int))),
                level.lightmap() == unlit_rows(stacked_rows(self.pieces@.take(i as int))),
                level.display_color() == color,
            decreases self.pieces.len() - i,
        {
            let ghost placed = self.pieces@.take(i as int);
            let ghost grown = self.pieces@.take(i + 1);
            proof {
                assert(grown.drop_last() =~= placed);
                assert(grown.last() == self.pieces@[i as int]);
            }
            match level.push_piece(&self.pieces[i]) {
                Ok(()) => {},
                Err(error) => {
                    assert(!(self.pieces@[i as int].rows().len() > 0));
                    return Err(error);
                },
            }
            proof {
                let rows = self.pieces@[i as int].rows();
                assert(placed_rows(stacked_rows(placed) + rows) =~= placed_rows(
                    stacked_rows(placed),
                ) + placed_rows(rows));
                assert(unlit_rows(stacked_rows(placed) + rows) =~= unlit_rows(
                    stacked_rows(placed),
                ) + unlit_rows(rows));
                assert forall|k: int| 0 <= k < grown.len() implies (
                #[trigger] grown[k]).rows().len() > 0 by {
                    if k < i {
                        assert(placed[k] == grown[k]);
                    }
                }
            }
            i += 1;
        }
        proof {
            assert(self.pieces@.take(i as int) =~= self.pieces@);
            lemma_stacked_height(self.pieces@);
        }
        level.init_textures();
        Ok(level)
    }

    /// Builds a level of the generator's pieces in one of the generator's
    /// colours, picked at random.
    ///
    /// Which colour is picked is not determined; in every case the result is
    /// what [`Generator::build_level_in`] gives for one of the colours.
    pub fn build_level(&self) -> (result: Result<Level, LevelError>)
        ensures
            result is Ok <==> all_have_rows(self.pieces@),
            match result {
                Ok(level) => {
                    &&& exists|i: int|
                        0 <= i < COLOR_COUNT && #[trigger] is_built_from(
                            level,
                            self.pieces@,
                            self.colors@[i],
                        )
                    &&& grid_height(level.tiles()) == total_height(self.pieces@)
                },
                Err(error) => error == LevelError::EmptyPieceError,
            },
    {
        let i = random_below(COLOR_COUNT);
        let color = self.colors[i];
        let result = self.build_level_in(color);
        proof {
            if result is Ok {
                assert(is_built_from(result->Ok_0, self.pieces@, self.colors@[i as int]));
            }
        }
        result
    }
}

} // verus!
