//! Screen space and level space.
//!
//! Screen positions are whole pixels. Level space is measured in level units, of
//! which [`UNITS_PER_TILE`] make one tile: the position `(768 * c, 768 * r)` is
//! the upper left corner of the tile in column `c` of row `r`. The unit is a
//! sixteenth of a pixel, the coarsest in which the offset that centres the level
//! on the screen is a whole number, so that the mapping is exact and can be
//! undone without loss.

use vstd::prelude::*;

verus! {

/// Factor by which the atlas is magnified on the screen.
pub const RENDER_SCALE: i64 = 6;

/// Side of a drawn tile in pixels: the side of a tile in the atlas times
/// [`RENDER_SCALE`].
pub const TILE_PIXELS: i64 = 48;

/// Nominal width of a level in tiles.
pub const LEVEL_WIDTH: i64 = 16;

/// Level units in one pixel.
pub const UNITS_PER_PIXEL: i64 = 16;

/// Level units in one tile: [`TILE_PIXELS`] times [`UNITS_PER_PIXEL`].
pub const UNITS_PER_TILE: i64 = 768;

/// A position on the screen, in pixels.
#[derive(PartialEq, Eq, Structural, Copy, Clone, Debug)]
pub struct PixelPos {
    pub x: i32,
    pub y: i32,
}

/// The size of the screen, in pixels.
#[derive(PartialEq, Eq, Structural, Copy, Clone, Debug)]
pub struct ScreenSize {
    pub w: u32,
    pub h: u32,
}

/// A position in level space, in level units.
#[derive(PartialEq, Eq, Structural, Copy, Clone, Debug)]
pub struct LevelPos {
    pub x: i64,
    pub y: i64,
}

/// The part of the screen that is shown, given by how far it has scrolled.
#[derive(PartialEq, Eq, Structural, Copy, Clone, Debug)]
pub struct CameraView {
    pub scroll: PixelPos,
}

impl CameraView {
    /// A camera that has not scrolled.
    pub fn new() -> (camera: CameraView)
        ensures
            camera.scroll.x == 0,
            camera.scroll.y == 0,
    {
        CameraView { scroll: PixelPos { x: 0, y: 0 } }
    }
}

/// The horizontal offset between screen and level, in level units, on a screen
/// `screen_w` pixels wide.
///
/// In pixels it is `RENDER_SCALE * (screen_w / TILE_PIXELS - LEVEL_WIDTH) / 2`,
/// which is a sixteenth of `screen_w - TILE_PIXELS * LEVEL_WIDTH`.
pub open spec fn centering_offset(screen_w: int) -> int {
    screen_w - TILE_PIXELS * LEVEL_WIDTH
}

/// The level coordinate of the screen column `x` on a screen `screen_w` pixels
/// wide: `(x + offset) / TILE_PIXELS` tiles.
pub open spec fn level_x(x: int, screen_w: int) -> int {
    UNITS_PER_PIXEL * x + centering_offset(screen_w)
}

/// The level coordinate of the screen row `y`: `y / TILE_PIXELS` tiles.
pub open spec fn level_y(y: int) -> int {
    UNITS_PER_PIXEL * y
}

/// The screen position that is mapped to `pos` on a screen `screen_w` pixels
/// wide, if there is one.
pub open spec fn screen_pos_of(pos: LevelPos, screen_w: int) -> Option<PixelPos> {
    let unit = UNITS_PER_PIXEL as int;
    let x = pos.x - centering_offset(screen_w);
    let y = pos.y as int;
    if x % unit == 0 && y % unit == 0 && i32::MIN <= x / unit <= i32::MAX && i32::MIN <= y / unit
        <= i32::MAX {
        Some(PixelPos { x: (x / unit) as i32, y: (y / unit) as i32 })
    } else {
        None
    }
}

/// Maps the screen row `y` to level space.
pub fn screen_to_lvl_y(y: i32) -> (level: i64)
    ensures
        level == level_y(y as int),
{
    UNITS_PER_PIXEL * (y as i64)
}

/// Maps the screen position `(x, y)` to level space, on a screen `screen_w`
/// pixels wide.
pub fn screen_to_lvl_coords(x: i32, y: i32, screen_w: u32) -> (pos: LevelPos)
    ensures
        pos.x == level_x(x as int, screen_w as int),
        pos.y == level_y(y as int),
{
    let x_offset: i64 = (screen_w as i64) - TILE_PIXELS * LEVEL_WIDTH;
    LevelPos { x: UNITS_PER_PIXEL * (x as i64) + x_offset, y: screen_to_lvl_y(y) }
}

/// Maps a position in level space back to the screen, on a screen `screen_w`
/// pixels wide. The result is `None` when no pixel is mapped to `pos`.
pub fn lvl_to_screen_coords(pos: LevelPos, screen_w: u32) -> (pixel: Option<PixelPos>)
    ensures
        pixel == screen_pos_of(pos, screen_w as int),
{
    let x_offset: i128 = (screen_w as i128) - (TILE_PIXELS * LEVEL_WIDTH) as i128;
    let x: i128 = (pos.x as i128) - x_offset;
    let y: i128 = pos.y as i128;
    let (col, col_rest) = floor_div_unit(x);
    let (row, row_rest) = floor_div_unit(y);
    if col_rest == 0 && row_rest == 0 && i32::MIN as i128 <= col && col <= i32::MAX as i128
        && i32::MIN as i128 <= row && row <= i32::MAX as i128 {
        Some(PixelPos { x: col as i32, y: row as i32 })
    } else {
        None
    }
}

/// Divides by the number of level units in a pixel, rounding down, and gives the
/// quotient and the remainder.
fn floor_div_unit(n: i128) -> (parts: (i128, i128))
    requires
        -0x1_0000_0000_0000_0000_0000 <= n <= 0x1_0000_0000_0000_0000_0000,
    ensures
        parts.0 == (n as int) / (UNITS_PER_PIXEL as int),
        parts.1 == (n as int) % (UNITS_PER_PIXEL as int),
{
    let unit: i128 = UNITS_PER_PIXEL as i128;
    if n >= 0 {
        (n / unit, n % unit)
    } else {
        let m: i128 = -n;
        let q: i128 = m / unit;
        let r: i128 = m % unit;
        if r == 0 {
            (-q, 0)
        } else {
            (-q - 1, unit - r)
        }
    }
}

/// Mapping a screen position to level space and back gives the position again.
pub proof fn lemma_screen_round_trip(pixel: PixelPos, screen_w: u32)
    ensures
        screen_pos_of(
            LevelPos {
                x: level_x(pixel.x as int, screen_w as int) as i64,
                y: level_y(pixel.y as int) as i64,
            },
            screen_w as int,
        ) == Some(pixel),
{
}

/// A position in level space that a pixel is mapped to is the image of the pixel
/// that the inverse gives: the two mappings undo each other.
pub proof fn lemma_level_round_trip(pos: LevelPos, screen_w: u32)
    ensures
        screen_pos_of(pos, screen_w as int) matches Some(pixel) ==> level_x(
            pixel.x as int,
            screen_w as int,
        ) == pos.x && level_y(pixel.y as int) == pos.y,
{
}

/// Moving one tile to the right or down on the screen moves one tile in level
/// space.
pub proof fn lemma_tile_steps(x: int, y: int, screen_w: int)
    ensures
        level_x(x + TILE_PIXELS, screen_w) == level_x(x, screen_w) + UNITS_PER_TILE,
        level_y(y + TILE_PIXELS) == level_y(y) + UNITS_PER_TILE,
{
}

} // verus!
