//! The level subsystem of a small tile-based platformer: a run-length text format
//! for level pieces, the tile grid that pieces are stacked into, the choice of
//! seamless tile art from the four neighbours of each tile, a radial lightmap and
//! the mapping between screen pixels and level space.
//!
//! The library computes in whole numbers throughout. Atlas rectangles are given
//! in atlas units, screen positions in pixels, and positions in the level in
//! level units, of which 768 make a tile; see [`coords`]. What is drawn with
//! fractions is converted where it is drawn.
//!
//! - [`tile`]: the catalog of tile types and the layout of their atlas blocks.
//! - [`format`]: the text format of level pieces.
//! - [`piece`]: level pieces.
//! - [`level`]: the level, its tiles and its lightmap.
//! - [`autotile`]: which art a tile gets from its neighbours.
//! - [`light`]: brightness by distance.
//! - [`coords`]: screen space and level space.
//! - [`generator`]: building a level from pieces.
//! - [`region`]: cutting a region out of the bytes of an image.
//! - [`error`]: what can go wrong with level data.

use vstd::prelude::*;
use vstd::std_specs::cmp::PartialOrdIs;
use vstd::std_specs::cmp::PartialOrdSpec;

pub mod autotile;
pub mod coords;
pub mod error;
pub mod format;
pub mod generator;
pub mod level;
pub mod light;
pub mod piece;
pub mod region;
pub mod tile;

verus! {

/// Clamps `input` between `min` and `max`.
///
/// The bounds must be properly ordered: `max` greater than `min`. For a type
/// whose comparison operators are known to order its values, as those of the
/// integers are, the result is `min` when `input` lies below it, `max` when
/// `input` lies above it, and `input` itself otherwise.
pub fn clamp<T: PartialOrd>(input: T, min: T, max: T) -> (clamped: T)
    requires
        max.is_gt(&min),
    ensures
        T::obeys_partial_cmp_spec() ==> clamped == (if input.is_lt(&min) {
            min
        } else if input.is_gt(&max) {
            max
        } else {
            input
        }),
{
    if input < min {
        min
    } else if input > max {
        max
    } else {
        input
    }
}

} // verus!
