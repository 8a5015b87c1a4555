//! The level: a grid of placed tiles with a brightness for every tile.
//!
//! A level begins empty and grows downwards, piece by piece. Once it is
//! assembled, each tile gets its texture from its neighbours; from then on only
//! the brightness changes, as the player moves.
//!
//! Each cell of the grid holds its tile together with its brightness, so the
//! tile grid and the lightmap are two views of one grid and cannot differ in
//! shape.

use vstd::prelude::*;
use crate::clamp;
use crate::autotile::autotile_index;
use crate::autotile::grid_height;
use crate::autotile::grid_width;
use crate::autotile::has_type_at;
use crate::autotile::lemma_texture_reads_types_only;
use crate::autotile::neighbours;
use crate::autotile::resolved_grid;
use crate::autotile::resolved_texture;
use crate::autotile::resolved_tile;
use crate::autotile::same_types;
use crate::autotile::tile_at;
use crate::autotile::Adjacency;
use crate::autotile::EDGE_MATCHES;
use crate::coords::level_x;
use crate::coords::level_y;
use crate::coords::screen_to_lvl_coords;
use crate::coords::CameraView;
use crate::coords::LevelPos;
use crate::coords::PixelPos;
use crate::coords::ScreenSize;
use crate::coords::TILE_PIXELS;
use crate::error::LevelError;
use crate::coords::UNITS_PER_TILE;
use crate::light::cell_light;
use crate::light::lemma_light_bounds;
use crate::light::lemma_light_falls_with_distance;
use crate::light::light_for_cell;
use crate::light::LIGHT_MIN;
use crate::light::LIGHT_MAX;
use crate::piece::LevelPiece;
use crate::tile::fresh_tile;
use crate::tile::get_tile_texture_rect;
use crate::tile::tile_descriptor;
use crate::tile::type_to_tile;
use crate::tile::LevelTile;
use crate::tile::TileType;

verus! {

/// A colour, by its red, green and blue parts.
#[derive(PartialEq, Eq, Structural, Copy, Clone, Debug)]
pub struct Rgb {
    pub r: u8,
    pub g: u8,
    pub b: u8,
}

/// One cell of the grid: a tile and its brightness.
#[derive(Copy, Clone, Debug)]
struct Cell {
    tile: LevelTile,
    light: u8,
}

/// A level: its tiles, its lightmap and the colour it is drawn in.
#[derive(Debug)]
pub struct Level {
    cells: Vec<Vec<Cell>>,
    color: Rgb,
}

/// The tiles that a row of a piece is placed as.
pub open spec fn placed_row(row: Seq<TileType>) -> Seq<LevelTile> {
    Seq::new(row.len(), |x: int| fresh_tile(row[x]))
}

/// The rows of tiles that the rows of a piece are placed as.
pub open spec fn placed_rows(rows: Seq<Seq<TileType>>) -> Seq<Seq<LevelTile>> {
    Seq::new(rows.len(), |y: int| placed_row(rows[y]))
}

/// The lightmap of freshly placed rows: the greatest brightness for every tile.
pub open spec fn unlit_rows(rows: Seq<Seq<TileType>>) -> Seq<Seq<u8>> {
    Seq::new(rows.len(), |y: int| Seq::new(rows[y].len(), |x: int| LIGHT_MAX))
}

/// Whether a grid of tiles and a lightmap have the same shape.
pub open spec fn same_shape(tiles: Seq<Seq<LevelTile>>, lightmap: Seq<Seq<u8>>) -> bool {
    &&& tiles.len() == lightmap.len()
    &&& forall|y: int| 0 <= y < tiles.len() ==> (#[trigger] tiles[y]).len() == lightmap[y].len()
}

/// The number of whole tiles in a number of pixels, rounded towards zero.
pub open spec fn whole_tiles(pixels: int) -> int {
    if pixels >= 0 {
        pixels / (TILE_PIXELS as int)
    } else {
        -((-pixels) / (TILE_PIXELS as int))
    }
}

/// `value`, or the bound that it lies beyond.
pub open spec fn clamped(value: int, min: int, max: int) -> int {
    if value < min {
        min
    } else if value > max {
        max
    } else {
        value
    }
}

/// The first row of the band that is lit anew in a grid of `height` rows when
/// the camera has scrolled `scroll_y` pixels down a screen `screen_h` pixels
/// high: one screen above the scroll position, within the grid.
pub open spec fn band_first(height: nat, scroll_y: int, screen_h: int) -> int {
    clamped(whole_tiles(scroll_y) - whole_tiles(screen_h), 0, height - 1)
}

/// The last row of the band: three screens below the first, within the grid.
pub open spec fn band_last(height: nat, scroll_y: int, screen_h: int) -> int {
    let first = band_first(height, scroll_y, screen_h);
    clamped(first + 3 * whole_tiles(screen_h), first, height - 1)
}

/// A lightmap after the rows `first` to `last` have been lit anew for a player
/// at `player`, in the columns below `width`. All other cells keep their
/// brightness.
pub open spec fn relit(
    lightmap: Seq<Seq<u8>>,
    width: nat,
    first: int,
    last: int,
    player: LevelPos,
) -> Seq<Seq<u8>> {
    Seq::new(
        lightmap.len(),
        |y: int|
            Seq::new(
                lightmap[y].len(),
                |x: int|
                    if first <= y <= last && x < width {
                        cell_light(x, y, player)
                    } else {
                        lightmap[y][x]
                    },
            ),
    )
}

/// The level position of a player at the pixel `player` of a screen `screen_w`
/// pixels wide.
pub open spec fn player_level_pos(player: PixelPos, screen_w: int) -> LevelPos {
    LevelPos { x: level_x(player.x as int, screen_w) as i64, y: level_y(player.y as int) as i64 }
}

/// The tiles of a grid of cells.
spec fn tiles_of(cells: Seq<Vec<Cell>>) -> Seq<Seq<LevelTile>> {
    Seq::new(cells.len(), |y: int| Seq::new(cells[y]@.len(), |x: int| cells[y]@[x].tile))
}

/// The brightness of each cell of a grid.
spec fn lights_of(cells: Seq<Vec<Cell>>) -> Seq<Seq<u8>> {
    Seq::new(cells.len(), |y: int| Seq::new(cells[y]@.len(), |x: int| cells[y]@[x].light))
}

impl Level {
    /// The grid of tiles, row by row from the top.
    pub closed spec fn tiles(&self) -> Seq<Seq<LevelTile>> {
        tiles_of(self.cells@)
    }

    /// The brightness of every tile, in the shape of the grid of tiles.
    pub closed spec fn lightmap(&self) -> Seq<Seq<u8>> {
        lights_of(self.cells@)
    }

    /// The colour that the level is drawn in.
    pub closed spec fn display_color(&self) -> Rgb {
        self.color
    }

    /// The views have the shape of the grid of cells.
    proof fn lemma_view_shapes(&self)
        ensures
            self.tiles().len() == self.cells@.len(),
            self.lightmap().len() == self.cells@.len(),
            forall|y: int|
                0 <= y < self.cells@.len() ==> (#[trigger] self.tiles()[y]).len()
                    == self.cells@[y]@.len(),
            forall|y: int|
                0 <= y < self.cells@.len() ==> (#[trigger] self.lightmap()[y]).len()
                    == self.cells@[y]@.len(),
    {
    }

    /// Makes an empty level of a colour.
    pub fn new(color: Rgb) -> (level: Level)
        ensures
            level.tiles() == Seq::<Seq<LevelTile>>::empty(),
            level.lightmap() == Seq::<Seq<u8>>::empty(),
            level.display_color() == color,
    {
        Level { cells: Vec::new(), color }
    }

    /// The colour that the level is drawn in.
    pub fn color(&self) -> (color: Rgb)
        ensures
            color == self.display_color(),
    {
        self.color
    }

    /// The number of rows of the level.
    pub fn height(&self) -> (height: usize)
        ensures
            height == grid_height(self.tiles()),
    {
        self.cells.len()
    }

    /// The width of the level: the length of its first row, 0 for an empty
    /// level.
    pub fn width(&self) -> (width: usize)
        ensures
            width == grid_width(self.tiles()),
    {
        if self.height() == 0 {
            0
        } else {
            self.cells[0].len()
        }
    }

    /// The tile in column `x` of row `y`, or `None` where the level has no such
    /// cell.
    pub fn get_tile(&self, x: usize, y: usize) -> (tile: Option<LevelTile>)
        ensures
            tile == tile_at(self.tiles(), x as int, y as int),
    {
        if !(self.cells.len() > y) || !(self.cells[y].len() > x) {
            None
        } else {
            Some(self.cells[y][x].tile)
        }
    }

    /// The brightness of the tile in column `x` of row `y`, or `None` where the
    /// level has no such cell.
    pub fn get_light(&self, x: usize, y: usize) -> (light: Option<u8>)
        ensures
            light == (if y < self.lightmap().len() && x < self.lightmap()[y as int].len() {
                Some(self.lightmap()[y as int][x as int])
            } else {
                None
            }),
    {
        if !(self.cells.len() > y) || !(self.cells[y].len() > x) {
            None
        } else {
            Some(self.cells[y][x].light)
        }
    }

    /// Tells whether the level has a tile of type `match_type` in column `x` of
    /// row `y`.
    pub fn comp_tile(&self, x: usize, y: usize, match_type: &TileType) -> (same: bool)
        ensures
            same == has_type_at(self.tiles(), x as int, y as int, *match_type),
    {
        let tile = self.get_tile(x, y);
        match tile {
            Some(t) => t.tile_type == *match_type,
            None => false,
        }
    }

    /// Places a piece below the rows that the level has.
    ///
    /// Every row of the piece is appended in order, each tile type as the tile
    /// that the catalog has for it, without a texture and at the greatest
    /// brightness. The rows that the level had stay as they are. A piece without
    /// rows is refused, and the level is left unchanged.
    pub fn push_piece(&mut self, piece: &LevelPiece) -> (result: Result<(), LevelError>)
        ensures
            final(self).display_color() == old(self).display_color(),
            piece.rows().len() == 0 ==> {
                &&& result == Err::<(), LevelError>(LevelError::EmptyPieceError)
                &&& final(self).tiles() == old(self).tiles()
                &&& final(self).lightmap() == old(self).lightmap()
            },
            piece.rows().len() > 0 ==> {
                &&& result is Ok
                &&& final(self).tiles() == old(self).tiles() + placed_rows(piece.rows())
                &&& final(self).lightmap() == old(self).lightmap() + unlit_rows(piece.rows())
                &&& grid_height(final(self).tiles()) == grid_height(old(self).tiles())
                    + piece.rows().len()
            },
    {
        if piece.data.len() == 0 {
            return Err(LevelError::EmptyPieceError);
        }
        let ghost before = self.cells@;
        let vec_h = piece.data.len();
        let mut i: usize = 0;
        while i < vec_h
            invariant
                i <= vec_h,
                vec_h == piece.data.len(),
                self.color == old(self).color,
                self.cells@.len() == before.len() + i,
                forall|y: int| 0 <= y < before.len() ==> self.cells@[y] == before[y],
                forall|y: int|
                    0 <= y < i ==> {
                        &&& (#[trigger] self.cells@[before.len() + y])@.len()
                            == piece.data@[y]@.len()
                        &&& forall|x: int|
                            0 <= x < piece.data@[y]@.len() ==> {
                                &&& (#[trigger] self.cells@[before.len() + y]@[x]).tile
                                    == fresh_tile(piece.data@[y]@[x])
                                &&& self.cells@[before.len() + y]@[x].light == LIGHT_MAX
                            }
                    },
            decreases vec_h - i,
        {
            let source = &piece.data[i];
            let vec_w = source.len();
            let mut temp_vec: Vec<Cell> = Vec::new();
            let mut n: usize = 0;
            while n < vec_w
                invariant
                    n <= vec_w,
                    vec_w == source@.len(),
                    temp_vec@.len() == n,
                    forall|x: int|
                        0 <= x < n ==> {
                            &&& (#[trigger] temp_vec@[x]).tile == fresh_tile(source@[x])
                            &&& temp_vec@[x].light == LIGHT_MAX
                        },
                decreases vec_w - n,
            {
                let level_tile = type_to_tile(source[n]);
                temp_vec.push(Cell { tile: level_tile, light: LIGHT_MAX });
                n += 1;
            }
            self.cells.push(temp_vec);
            i += 1;
        }
        proof {
            let added = placed_rows(piece.rows());
            let tiles = self.tiles();
            let joined = old(self).tiles() + added;
            assert(tiles.len() == joined.len());
            assert forall|y: int| 0 <= y < tiles.len() implies #[trigger] tiles[y] == joined[y] by {
                if y < before.len() {
                    assert(self.cells@[y] == before[y]);
                    assert(tiles[y] =~= old(self).tiles()[y]);
                } else {
                    let k = y - before.len();
                    assert(self.cells@[before.len() + k]@.len() == piece.data@[k]@.len());
                    assert(tiles[y] =~= added[k]);
                }
            }
            assert(tiles =~= joined);
            let lights = self.lightmap();
            let lit = old(self).lightmap() + unlit_rows(piece.rows());
            assert(lights.len() == lit.len());
            assert forall|y: int| 0 <= y < lights.len() implies #[trigger] lights[y] == lit[y] by {
                if y < before.len() {
                    assert(self.cells@[y] == before[y]);
                    assert(lights[y] =~= old(self).lightmap()[y]);
                } else {
                    let k = y - before.len();
                    assert(self.cells@[before.len() + k]@.len() == piece.data@[k]@.len());
                    assert(lights[y] =~= unlit_rows(piece.rows())[k]);
                }
            }
            assert(lights =~= lit);
        }
        Ok(())
    }

    /// Resolves the texture of the tile in column `col` of row `row`: the art
    /// that joins to those of its four neighbours that are of its own type, from
    /// the atlas block of its type. Nothing else changes.
    ///
    /// The level must have the cell.
    pub fn init_tile_texture(&mut self, row: usize, col: usize)
        requires
            row < grid_height(old(self).tiles()),
            col < old(self).tiles()[row as int].len(),
        ensures
            final(self).tiles() == old(self).tiles().update(
                row as int,
                old(self).tiles()[row as int].update(
                    col as int,
                    resolved_tile(old(self).tiles(), col as int, row as int),
                ),
            ),
            final(self).lightmap() == old(self).lightmap(),
            final(self).display_color() == old(self).display_color(),
    {
        proof {
            self.lemma_view_shapes();
            assert(self.tiles()[row as int].len() == self.cells@[row as int]@.len());
        }
        let row_len = self.cells[row].len();
        let tile = self.cells[row][col].tile;
        let height = self.height();
        let width = self.width();
        let atlas_region = tile_descriptor(tile.tile_type).base_atlas_region;
        assert(atlas_region.is_tile_block());
        let adjacent = Adjacency {
            up: if row > 0 {
                self.comp_tile(col, row - 1, &tile.tile_type)
            } else {
                EDGE_MATCHES
            },
            right: if col + 1 < width {
                self.comp_tile(col + 1, row, &tile.tile_type)
            } else {
                EDGE_MATCHES
            },
            down: if row + 1 < height {
                self.comp_tile(col, row + 1, &tile.tile_type)
            } else {
                EDGE_MATCHES
            },
            left: if col > 0 {
                self.comp_tile(col - 1, row, &tile.tile_type)
            } else {
                EDGE_MATCHES
            },
        };
        assert(adjacent == neighbours(self.tiles(), col as int, row as int));
        let tex_id = autotile_index(adjacent);
        let tex = get_tile_texture_rect(atlas_region, tex_id);
        self.cells[row][col].tile.tile_texture = Some(tex);
        proof {
            let before = old(self).tiles();
            let after = before.update(
                row as int,
                before[row as int].update(
                    col as int,
                    resolved_tile(before, col as int, row as int),
                ),
            );
            assert forall|y: int| 0 <= y < after.len() implies #[trigger] self.tiles()[y]
                == after[y] by {
                assert(self.tiles()[y] =~= after[y]);
            }
            assert(self.tiles() =~= after);
            let lights = self.lightmap();
            assert forall|y: int| 0 <= y < lights.len() implies #[trigger] lights[y] == old(
                self,
            ).lightmap()[y] by {
                assert(lights[y] =~= old(self).lightmap()[y]);
            }
            assert(lights =~= old(self).lightmap());
        }
    }

    /// Resolves the texture of every tile of the level.
    ///
    /// Each tile gets the art that joins to those of its four neighbours that
    /// are of its own type; a neighbour beyond the border of the grid counts as
    /// [`EDGE_MATCHES`] says. Types, collision flags, brightness and colour stay
    /// as they are, and no tile is left without a texture.
    pub fn init_textures(&mut self)
        ensures
            final(self).tiles() == resolved_grid(old(self).tiles()),
            final(self).lightmap() == old(self).lightmap(),
            final(self).display_color() == old(self).display_color(),
            forall|x: int, y: int|
                0 <= y < final(self).tiles().len() && 0 <= x < final(self).tiles()[y].len()
                    ==> (#[trigger] final(self).tiles()[y][x]).tile_texture is Some,
    {
        let ghost before = self.tiles();
        let height = self.height();
        let mut i: usize = 0;
        while i < height
            invariant
                i <= height,
                height == before.len(),
                same_types(self.tiles(), before),
                self.lightmap() == old(self).lightmap(),
                self.display_color() == old(self).display_color(),
                forall|x: int, y: int|
                    0 <= y < before.len() && 0 <= x < before[y].len()
                        ==> #[trigger] self.tiles()[y][x] == (if y < i {
                        resolved_tile(before, x, y)
                    } else {
                        before[y][x]
                    }),
            decreases height - i,
        {
            proof {
                self.lemma_view_shapes();
                assert(self.tiles()[i as int].len() == self.cells@[i as int]@.len());
            }
            let row_len = self.cells[i].len();
            let mut n: usize = 0;
            while n < row_len
                invariant
                    i < height,
                    height == before.len(),
                    n <= row_len,
                    row_len == before[i as int].len(),
                    same_types(self.tiles(), before),
                    self.lightmap() == old(self).lightmap(),
                    self.display_color() == old(self).display_color(),
                    forall|x: int, y: int|
                        0 <= y < before.len() && 0 <= x < before[y].len()
                            ==> #[trigger] self.tiles()[y][x] == (if y < i || (y == i && x < n) {
                            resolved_tile(before, x, y)
                        } else {
                            before[y][x]
                        }),
                decreases row_len - n,
            {
                proof {
                    lemma_texture_reads_types_only(self.tiles(), before, n as int, i as int);
                }
                let ghost current = self.tiles();
                self.init_tile_texture(i, n);
                assert(self.tiles()[i as int][n as int] == resolved_tile(
                    before,
                    n as int,
                    i as int,
                ));
                assert forall|x: int, y: int|
                    0 <= y < before.len() && 0 <= x < before[y].len()
                        && !(y == i && x == n) implies #[trigger] self.tiles()[y][x]
                    == current[y][x] by {}
                n += 1;
            }
            i += 1;
        }
        proof {
            let resolved = resolved_grid(before);
            assert forall|y: int| 0 <= y < resolved.len() implies #[trigger] self.tiles()[y]
                == resolved[y] by {
                assert(self.tiles()[y].len() == before[y].len());
                assert(self.tiles()[y] =~= resolved[y]);
            }
            assert(self.tiles() =~= resolved);
        }
    }

    /// Sets the brightness of the tile in column `x` of row `y` for a player at
    /// `player_pos` in level space. Nothing else changes.
    ///
    /// The level must have the cell.
    pub fn update_light(&mut self, x: usize, y: usize, player_pos: LevelPos)
        requires
            y < old(self).lightmap().len(),
            x < old(self).lightmap()[y as int].len(),
        ensures
            final(self).lightmap() == old(self).lightmap().update(
                y as int,
                old(self).lightmap()[y as int].update(
                    x as int,
                    cell_light(x as int, y as int, player_pos),
                ),
            ),
            final(self).tiles() == old(self).tiles(),
            final(self).display_color() == old(self).display_color(),
    {
        let light = light_for_cell(x, y, player_pos);
        self.cells[y][x].light = light;
        proof {
            let before = old(self).lightmap();
            let after = before.update(
                y as int,
                before[y as int].update(x as int, cell_light(x as int, y as int, player_pos)),
            );
            assert forall|r: int| 0 <= r < after.len() implies #[trigger] self.lightmap()[r]
                == after[r] by {
                assert(self.lightmap()[r] =~= after[r]);
            }
            assert(self.lightmap() =~= after);
            assert forall|r: int| 0 <= r < self.tiles().len() implies #[trigger] self.tiles()[r]
                == old(self).tiles()[r] by {
                assert(self.tiles()[r] =~= old(self).tiles()[r]);
            }
            assert(self.tiles() =~= old(self).tiles());
        }
    }

    /// Lights the level anew for a player at the pixel `player_pos`.
    ///
    /// Only a band of rows around what the camera shows is lit: from one screen
    /// above the scroll position to three screens below that, within the grid,
    /// and in each row the columns below the level's width. Every such cell gets
    /// the brightness that belongs to its distance from the player; all other
    /// cells keep theirs. Tiles and colour stay as they are.
    pub fn update_lightmap(
        &mut self,
        camera: &CameraView,
        screen_size: ScreenSize,
        player_pos: PixelPos,
    )
        ensures
            final(self).lightmap() == relit(
                old(self).lightmap(),
                grid_width(old(self).tiles()),
                band_first(
                    grid_height(old(self).tiles()),
                    camera.scroll.y as int,
                    screen_size.h as int,
                ),
                band_last(
                    grid_height(old(self).tiles()),
                    camera.scroll.y as int,
                    screen_size.h as int,
                ),
                player_level_pos(player_pos, screen_size.w as int),
            ),
            final(self).tiles() == old(self).tiles(),
            final(self).display_color() == old(self).display_color(),
    {
        let ghost before = self.lightmap();
        let height = self.height();
        if height == 0 {
            assert(before =~= relit(
                before,
                grid_width(self.tiles()),
                band_first(0, camera.scroll.y as int, screen_size.h as int),
                band_last(0, camera.scroll.y as int, screen_size.h as int),
                player_level_pos(player_pos, screen_size.w as int),
            ));
            return ;
        }
        let width = self.width();
        let screen_y_tiles: i128 = ((screen_size.h as i64) / TILE_PIXELS) as i128;
        let scroll_y_tiles: i128 = if camera.scroll.y >= 0 {
            ((camera.scroll.y as i64) / TILE_PIXELS) as i128
        } else {
            -(((-(camera.scroll.y as i64)) / TILE_PIXELS) as i128)
        };
        let bottom: i128 = (height as i128) - 1;
        let y_min: i128 = if bottom > 0 {
            clamp(scroll_y_tiles - screen_y_tiles, 0, bottom)
        } else {
            0
        };
        let y_max: i128 = if bottom > y_min {
            clamp(y_min + 3 * screen_y_tiles, y_min, bottom)
        } else {
            y_min
        };
        assert(y_min == band_first(height as nat, camera.scroll.y as int, screen_size.h as int));
        assert(y_max == band_last(height as nat, camera.scroll.y as int, screen_size.h as int));
        let player = screen_to_lvl_coords(player_pos.x, player_pos.y, screen_size.w);
        assert(player == player_level_pos(player_pos, screen_size.w as int));
        let first: usize = y_min as usize;
        let last: usize = y_max as usize;
        let mut n: usize = first;
        while n <= last
            invariant
                first <= n <= last + 1,
                last < height,
                height == before.len(),
                width == grid_width(old(self).tiles()),
                self.tiles() == old(self).tiles(),
                self.display_color() == old(self).display_color(),
                same_shape(self.tiles(), before),
                same_shape(self.tiles(), self.lightmap()),
                forall|x: int, y: int|
                    0 <= y < before.len() && 0 <= x < before[y].len()
                        ==> #[trigger] self.lightmap()[y][x] == (if first <= y < n && x < width {
                        cell_light(x, y, player)
                    } else {
                        before[y][x]
                    }),
            decreases last + 1 - n,
        {
            proof {
                self.lemma_view_shapes();
                assert(self.tiles()[n as int].len() == self.cells@[n as int]@.len());
            }
            let row_len = self.cells[n].len();
            let lit_len = if row_len < width {
                row_len
            } else {
                width
            };
            let mut i: usize = 0;
            while i < lit_len
                invariant
                    first <= n <= last,
                    last < height,
                    height == before.len(),
                    i <= lit_len,
                    lit_len <= width,
                    lit_len <= before[n as int].len(),
                    lit_len == width || lit_len == before[n as int].len(),
                    self.tiles() == old(self).tiles(),
                    self.display_color() == old(self).display_color(),
                    same_shape(self.tiles(), before),
                    same_shape(self.tiles(), self.lightmap()),
                    forall|x: int, y: int|
                        0 <= y < before.len() && 0 <= x < before[y].len()
                            ==> #[trigger] self.lightmap()[y][x] == (if (first <= y < n && x
                            < width) || (y == n && x < i) {
                            cell_light(x, y, player)
                        } else {
                            before[y][x]
                        }),
                decreases lit_len - i,
            {
                let ghost current = self.lightmap();
                assert(self.tiles()[n as int].len() == current[n as int].len());
                self.update_light(i, n, player);
                assert forall|x: int, y: int|
                    0 <= y < before.len() && 0 <= x < before[y].len()
                        && !(y == n && x == i) implies #[trigger] self.lightmap()[y][x]
                    == current[y][x] by {}
                i += 1;
            }
            n += 1;
        }
        proof {
            let lit = relit(before, width as nat, first as int, last as int, player);
            assert forall|y: int| 0 <= y < lit.len() implies #[trigger] self.lightmap()[y]
                == lit[y] by {
                assert(self.tiles()[y].len() == before[y].len());
                assert(self.lightmap()[y] =~= lit[y]);
            }
            assert(self.lightmap() =~= lit);
        }
    }
}

/// A level that had no rows is, after a piece was placed in it, as high as the
/// piece.
pub proof fn lemma_first_piece_sets_height(empty: Level, piece: LevelPiece, placed: Level)
    requires
        empty.tiles() == Seq::<Seq<LevelTile>>::empty(),
        placed.tiles() == empty.tiles() + placed_rows(piece.rows()),
    ensures
        grid_height(placed.tiles()) == piece.rows().len(),
{
}

/// Placing a piece makes a level higher by the height of the piece, and leaves
/// the rows that the level had where they were.
pub proof fn lemma_piece_adds_its_height(before: Level, piece: LevelPiece, after: Level)
    requires
        after.tiles() == before.tiles() + placed_rows(piece.rows()),
    ensures
        grid_height(after.tiles()) == grid_height(before.tiles()) + piece.rows().len(),
        forall|y: int| 0 <= y < before.tiles().len() ==> after.tiles()[y] == before.tiles()[y],
{
}

/// In a grid that has rows, the band that is lit anew lies within the grid and
/// holds a row at least.
pub proof fn lemma_band_is_within_grid(height: nat, scroll_y: int, screen_h: int)
    requires
        height > 0,
        screen_h >= 0,
    ensures
        0 <= band_first(height, scroll_y, screen_h) <= band_last(height, scroll_y, screen_h)
            < height,
        band_last(height, scroll_y, screen_h) - band_first(height, scroll_y, screen_h) <= 3
            * whole_tiles(screen_h),
{
}

/// After the lightmap was lit anew, brightness does not increase with the
/// distance from the player: of two cells that were lit, the one whose corner is
/// no farther from the player is no darker, and a cell whose corner is where the
/// player stands is as bright as can be.
pub proof fn lemma_lit_cells_darken_with_distance(
    lightmap: Seq<Seq<u8>>,
    width: nat,
    first: int,
    last: int,
    player: LevelPos,
    near: (int, int),
    far: (int, int),
)
    requires
        first <= near.1 <= last && 0 <= near.1 < lightmap.len(),
        first <= far.1 <= last && 0 <= far.1 < lightmap.len(),
        0 <= near.0 < width && near.0 < lightmap[near.1].len(),
        0 <= far.0 < width && far.0 < lightmap[far.1].len(),
        (player.x - UNITS_PER_TILE * near.0) * (player.x - UNITS_PER_TILE * near.0) + (player.y
            - UNITS_PER_TILE * near.1) * (player.y - UNITS_PER_TILE * near.1) <= (player.x
            - UNITS_PER_TILE * far.0) * (player.x - UNITS_PER_TILE * far.0) + (player.y
            - UNITS_PER_TILE * far.1) * (player.y - UNITS_PER_TILE * far.1),
    ensures
        relit(lightmap, width, first, last, player)[near.1][near.0] >= relit(
            lightmap,
            width,
            first,
            last,
            player,
        )[far.1][far.0],
        LIGHT_MIN <= relit(lightmap, width, first, last, player)[far.1][far.0] <= LIGHT_MAX,
        player.x == UNITS_PER_TILE * near.0 && player.y == UNITS_PER_TILE * near.1 ==> relit(
            lightmap,
            width,
            first,
            last,
            player,
        )[near.1][near.0] == LIGHT_MAX,
{
    let near_dx = player.x - UNITS_PER_TILE * near.0;
    let near_dy = player.y - UNITS_PER_TILE * near.1;
    let far_dx = player.x - UNITS_PER_TILE * far.0;
    let far_dy = player.y - UNITS_PER_TILE * far.1;
    lemma_light_falls_with_distance(near_dx, near_dy, far_dx, far_dy);
    lemma_light_bounds(near_dx, near_dy);
    lemma_light_bounds(far_dx, far_dy);
}

/// In every level the lightmap has the shape of the grid of tiles.
pub proof fn lemma_lightmap_has_grid_shape(level: Level)
    ensures
        same_shape(level.tiles(), level.lightmap()),
{
}

} // verus!
