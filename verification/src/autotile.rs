//! Autotiling: choosing, for a tile, the art that joins seamlessly to those of
//! its four orthogonal neighbours that are of its own type.
//!
//! The atlas block of a tile type holds sixteen pieces of art, one for each way
//! in which the four neighbours can match. [`art_joins`] describes the block as
//! it is drawn; [`autotile_table`] is the lookup in the other direction.

use vstd::prelude::*;
use crate::tile::LevelTile;
use crate::tile::TileType;
use crate::tile::AtlasRect;
use crate::tile::base_region;
use crate::tile::atlas_cell;

verus! {

/// How a neighbour that lies beyond the border of the grid counts: as a tile of
/// the same type, so that the border of a level shows no edge art.
pub const EDGE_MATCHES: bool = true;

/// Number of pieces of art in the atlas block of a tile type.
pub const ART_COUNT: usize = 16;

/// Number of the art for a tile with no matching neighbour.
pub const ART_ISOLATED: usize = 0;

/// Number of the art for a tile whose four neighbours all match.
pub const ART_SURROUNDED: usize = 8;

/// Which of the four orthogonal neighbours of a tile are of the tile's own type.
#[derive(PartialEq, Eq, Structural, Copy, Clone, Debug)]
pub struct Adjacency {
    pub up: bool,
    pub right: bool,
    pub down: bool,
    pub left: bool,
}

/// The art for each combination of matching neighbours.
pub open spec fn autotile_table(adjacent: Adjacency) -> nat {
    match (adjacent.up, adjacent.right, adjacent.down, adjacent.left) {
        (false, false, false, false) => 0,
        (false, true, true, false) => 1,
        (false, false, true, true) => 2,
        (true, true, true, false) => 3,
        (false, true, true, true) => 4,
        (true, false, true, false) => 5,
        (false, true, false, false) => 6,
        (false, false, true, false) => 7,
        (true, true, true, true) => 8,
        (true, true, false, false) => 9,
        (true, false, false, true) => 10,
        (true, true, false, true) => 11,
        (true, false, true, true) => 12,
        (false, true, false, true) => 13,
        (true, false, false, false) => 14,
        (false, false, false, true) => 15,
    }
}

/// The sides on which the art numbered `index` joins to a neighbour, as the
/// atlas block is laid out: the upper row of the block holds the lone tile, the
/// two upper corners, the left and upper edges, the vertical shaft and the caps
/// that open to the right and downwards; the lower row holds the inner tile, the
/// two lower corners, the lower and right edges, the horizontal shaft and the
/// caps that open upwards and to the left.
pub open spec fn art_joins(index: nat) -> Adjacency {
    if index == 0 {
        Adjacency { up: false, right: false, down: false, left: false }
    } else if index == 1 {
        Adjacency { up: false, right: true, down: true, left: false }
    } else if index == 2 {
        Adjacency { up: false, right: false, down: true, left: true }
    } else if index == 3 {
        Adjacency { up: true, right: true, down: true, left: false }
    } else if index == 4 {
        Adjacency { up: false, right: true, down: true, left: true }
    } else if index == 5 {
        Adjacency { up: true, right: false, down: true, left: false }
    } else if index == 6 {
        Adjacency { up: false, right: true, down: false, left: false }
    } else if index == 7 {
        Adjacency { up: false, right: false, down: true, left: false }
    } else if index == 8 {
        Adjacency { up: true, right: true, down: true, left: true }
    } else if index == 9 {
        Adjacency { up: true, right: true, down: false, left: false }
    } else if index == 10 {
        Adjacency { up: true, right: false, down: false, left: true }
    } else if index == 11 {
        Adjacency { up: true, right: true, down: false, left: true }
    } else if index == 12 {
        Adjacency { up: true, right: false, down: true, left: true }
    } else if index == 13 {
        Adjacency { up: false, right: true, down: false, left: true }
    } else if index == 14 {
        Adjacency { up: true, right: false, down: false, left: false }
    } else {
        Adjacency { up: false, right: false, down: false, left: true }
    }
}

/// Picks the art for a combination of matching neighbours: the one piece of the
/// atlas block that joins on exactly the matching sides.
pub fn autotile_index(adjacent: Adjacency) -> (index: usize)
    ensures
        index == autotile_table(adjacent),
        index < ART_COUNT,
        art_joins(index as nat) == adjacent,
{
    match (adjacent.up, adjacent.right, adjacent.down, adjacent.left) {
        (true, true, true, true) => 8,
        (true, true, true, false) => 3,
        (true, true, false, true) => 11,
        (true, false, true, true) => 12,
        (false, true, true, true) => 4,
        (true, true, false, false) => 9,
        (true, false, true, false) => 5,
        (false, true, true, false) => 1,
        (true, false, false, true) => 10,
        (false, true, false, true) => 13,
        (false, false, true, true) => 2,
        (true, false, false, false) => 14,
        (false, true, false, false) => 6,
        (false, false, true, false) => 7,
        (false, false, false, true) => 15,
        (false, false, false, false) => 0,
    }
}

/// The table pairs the sixteen combinations of neighbours with the sixteen
/// pieces of art, one to one: each combination gets the art that joins on
/// exactly its matching sides, and each piece of art is chosen by exactly the
/// combination it is drawn for.
pub proof fn lemma_autotile_table_is_one_to_one(adjacent: Adjacency, index: nat)
    ensures
        autotile_table(adjacent) < ART_COUNT,
        art_joins(autotile_table(adjacent)) == adjacent,
        index < ART_COUNT ==> autotile_table(art_joins(index)) == index,
{
}

/// A tile with four matching neighbours gets the inner art, a tile with none the
/// art of a lone tile, and no other combination gets either.
pub proof fn lemma_autotile_extremes(adjacent: Adjacency)
    ensures
        autotile_table(adjacent) == ART_SURROUNDED <==> (adjacent.up && adjacent.right
            && adjacent.down && adjacent.left),
        autotile_table(adjacent) == ART_ISOLATED <==> (!adjacent.up && !adjacent.right
            && !adjacent.down && !adjacent.left),
{
}

/// Height of a grid of tiles: its number of rows.
pub open spec fn grid_height(tiles: Seq<Seq<LevelTile>>) -> nat {
    tiles.len()
}

/// Width of a grid of tiles: the length of its first row, 0 for an empty grid.
pub open spec fn grid_width(tiles: Seq<Seq<LevelTile>>) -> nat {
    if tiles.len() == 0 {
        0
    } else {
        tiles[0].len()
    }
}

/// The tile in column `x` of row `y`, if the grid has such a cell.
pub open spec fn tile_at(tiles: Seq<Seq<LevelTile>>, x: int, y: int) -> Option<LevelTile> {
    if 0 <= y < tiles.len() && 0 <= x < tiles[y].len() {
        Some(tiles[y][x])
    } else {
        None
    }
}

/// Whether the grid has a tile of type `tile_type` in column `x` of row `y`.
pub open spec fn has_type_at(
    tiles: Seq<Seq<LevelTile>>,
    x: int,
    y: int,
    tile_type: TileType,
) -> bool {
    tile_at(tiles, x, y) matches Some(tile) && tile.tile_type == tile_type
}

/// The matching neighbours of the tile in column `x` of row `y`.
///
/// A neighbour beyond the grid's first or last row, or beyond its first column or
/// its width, counts as [`EDGE_MATCHES`] says. A neighbour within these bounds
/// matches when the grid has a tile there and the tile is of the same type.
pub open spec fn neighbours(tiles: Seq<Seq<LevelTile>>, x: int, y: int) -> Adjacency {
    let own = tiles[y][x].tile_type;
    Adjacency {
        up: if y > 0 {
            has_type_at(tiles, x, y - 1, own)
        } else {
            EDGE_MATCHES
        },
        right: if x + 1 < grid_width(tiles) {
            has_type_at(tiles, x + 1, y, own)
        } else {
            EDGE_MATCHES
        },
        down: if y + 1 < grid_height(tiles) {
            has_type_at(tiles, x, y + 1, own)
        } else {
            EDGE_MATCHES
        },
        left: if x > 0 {
            has_type_at(tiles, x - 1, y, own)
        } else {
            EDGE_MATCHES
        },
    }
}

/// The texture of the tile in column `x` of row `y`: the art that the table
/// gives for the tile's matching neighbours, in the atlas block of its type.
pub open spec fn resolved_texture(tiles: Seq<Seq<LevelTile>>, x: int, y: int) -> AtlasRect {
    atlas_cell(base_region(tiles[y][x].tile_type), autotile_table(neighbours(tiles, x, y)))
}

/// The tile in column `x` of row `y` with its texture resolved.
pub open spec fn resolved_tile(tiles: Seq<Seq<LevelTile>>, x: int, y: int) -> LevelTile {
    LevelTile {
        tile_type: tiles[y][x].tile_type,
        tile_texture: Some(resolved_texture(tiles, x, y)),
        collide: tiles[y][x].collide,
    }
}

/// A grid with the texture of every tile resolved.
pub open spec fn resolved_grid(tiles: Seq<Seq<LevelTile>>) -> Seq<Seq<LevelTile>> {
    Seq::new(
        tiles.len(),
        |y: int| Seq::new(tiles[y].len(), |x: int| resolved_tile(tiles, x, y)),
    )
}

/// Whether two grids have the same shape and, cell by cell, tiles of the same
/// type.
pub open spec fn same_types(a: Seq<Seq<LevelTile>>, b: Seq<Seq<LevelTile>>) -> bool {
    &&& a.len() == b.len()
    &&& forall|y: int| 0 <= y < a.len() ==> (#[trigger] a[y]).len() == b[y].len()
    &&& forall|x: int, y: int|
        0 <= y < a.len() && 0 <= x < a[y].len() ==> (#[trigger] a[y][x]).tile_type
            == b[y][x].tile_type
}

/// The texture of a tile depends on the types of the tiles alone: grids of the
/// same shape and types give every tile the same texture.
pub proof fn lemma_texture_reads_types_only(
    a: Seq<Seq<LevelTile>>,
    b: Seq<Seq<LevelTile>>,
    x: int,
    y: int,
)
    requires
        same_types(a, b),
        0 <= y < a.len(),
        0 <= x < a[y].len(),
    ensures
        neighbours(a, x, y) == neighbours(b, x, y),
        resolved_texture(a, x, y) == resolved_texture(b, x, y),
{
    let own = a[y][x].tile_type;
    assert(b[y][x].tile_type == own);
    assert forall|nx: int, ny: int| has_type_at(a, nx, ny, own) == has_type_at(b, nx, ny, own) by {
        if 0 <= ny < a.len() && 0 <= nx < a[ny].len() {
            assert(a[ny][nx].tile_type == b[ny][nx].tile_type);
        }
    }
    if a.len() > 0 {
        assert(a[0].len() == b[0].len());
    }
}

/// Resolving keeps the shape of the grid, the type and the collision flag of
/// every tile, and leaves no tile without a texture.
pub proof fn lemma_resolved_grid_is_complete(tiles: Seq<Seq<LevelTile>>)
    ensures
        same_types(tiles, resolved_grid(tiles)),
        forall|x: int, y: int|
            0 <= y < tiles.len() && 0 <= x < tiles[y].len() ==> {
                &&& (#[trigger] resolved_grid(tiles)[y][x]).tile_texture is Some
                &&& resolved_grid(tiles)[y][x].collide == tiles[y][x].collide
            },
{
}

/// Resolving a grid a second time changes nothing.
pub proof fn lemma_resolving_twice(tiles: Seq<Seq<LevelTile>>)
    ensures
        resolved_grid(resolved_grid(tiles)) == resolved_grid(tiles),
{
    let once = resolved_grid(tiles);
    let twice = resolved_grid(once);
    lemma_resolved_grid_is_complete(tiles);
    assert forall|y: int| 0 <= y < once.len() implies #[trigger] twice[y] == once[y] by {
        assert(once[y].len() == tiles[y].len());
        assert forall|x: int| 0 <= x < once[y].len() implies #[trigger] twice[y][x]
            == once[y][x] by {
            lemma_texture_reads_types_only(tiles, once, x, y);
        }
        assert(twice[y] =~= once[y]);
    }
    assert(twice =~= once);
}

/// A tile whose neighbours within the grid are all of its own type gets the
/// inner art of its type's atlas block, whether it lies inside the grid or on
/// its border.
pub proof fn lemma_surrounded_tile_gets_inner_art(tiles: Seq<Seq<LevelTile>>, x: int, y: int)
    requires
        0 <= y < tiles.len(),
        0 <= x < tiles[y].len(),
        y > 0 ==> has_type_at(tiles, x, y - 1, tiles[y][x].tile_type),
        x + 1 < grid_width(tiles) ==> has_type_at(tiles, x + 1, y, tiles[y][x].tile_type),
        y + 1 < grid_height(tiles) ==> has_type_at(tiles, x, y + 1, tiles[y][x].tile_type),
        x > 0 ==> has_type_at(tiles, x - 1, y, tiles[y][x].tile_type),
    ensures
        autotile_table(neighbours(tiles, x, y)) == ART_SURROUNDED,
        resolved_texture(tiles, x, y) == atlas_cell(
            base_region(tiles[y][x].tile_type),
            ART_SURROUNDED as nat,
        ),
{
}

/// A tile inside the grid with no neighbour of its own type gets the art of a
/// lone tile.
pub proof fn lemma_isolated_tile_gets_lone_art(tiles: Seq<Seq<LevelTile>>, x: int, y: int)
    requires
        0 < y < tiles.len() - 1,
        0 < x < grid_width(tiles) - 1,
        x < tiles[y].len(),
        !has_type_at(tiles, x, y - 1, tiles[y][x].tile_type),
        !has_type_at(tiles, x + 1, y, tiles[y][x].tile_type),
        !has_type_at(tiles, x, y + 1, tiles[y][x].tile_type),
        !has_type_at(tiles, x - 1, y, tiles[y][x].tile_type),
    ensures
        autotile_table(neighbours(tiles, x, y)) == ART_ISOLATED,
        resolved_texture(tiles, x, y) == atlas_cell(
            base_region(tiles[y][x].tile_type),
            ART_ISOLATED as nat,
        ),
{
}

} // verus!
