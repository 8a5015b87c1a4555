//! The tile catalog: the closed set of tile types, what each type looks like in
//! the texture atlas and whether it blocks movement.

use vstd::prelude::*;

verus! {

/// Side of one tile in atlas units.
pub const TILE_DIMS: u32 = 8;

/// Number of tile cells in one row of a tile type's atlas block.
pub const TILE_ROW_SIZE: u32 = 8;

/// Distance between the origins of two neighbouring cells of an atlas block: the
/// tile itself and one unit of padding.
pub const TILE_STRIDE: u32 = 9;

/// Number of tile types in the catalog.
pub const TILE_COUNT: usize = 4;

/// Width that the atlas block of every tile type must have: eight cells in a row,
/// without the padding behind the last.
pub const REGION_WIDTH: u32 = 71;

/// Height that the atlas block of every tile type must have: two rows of cells,
/// without the padding below the last.
pub const REGION_HEIGHT: u32 = 17;

/// The kind of a tile. It decides both how the tile looks and whether it collides.
#[derive(PartialEq, Eq, Structural, Copy, Clone, Debug)]
pub enum TileType {
    Brick,
    Wood,
    Metal,
    Air,
}

impl TileType {
    /// Position of this type in the catalog.
    pub open spec fn spec_index(self) -> nat {
        match self {
            TileType::Brick => 0,
            TileType::Wood => 1,
            TileType::Metal => 2,
            TileType::Air => 3,
        }
    }

    /// The type at a position of the catalog, if the position is within it.
    pub open spec fn spec_from_index(index: nat) -> Option<TileType> {
        if index == 0 {
            Some(TileType::Brick)
        } else if index == 1 {
            Some(TileType::Wood)
        } else if index == 2 {
            Some(TileType::Metal)
        } else if index == 3 {
            Some(TileType::Air)
        } else {
            None
        }
    }

    /// Position of this type in the catalog.
    pub fn index(self) -> (index: usize)
        ensures
            index == self.spec_index(),
            index < TILE_COUNT,
    {
        match self {
            TileType::Brick => 0,
            TileType::Wood => 1,
            TileType::Metal => 2,
            TileType::Air => 3,
        }
    }

    /// The type at position `index` of the catalog, or `None` when the catalog
    /// has no such position.
    pub fn from_index(index: usize) -> (tile_type: Option<TileType>)
        ensures
            tile_type == Self::spec_from_index(index as nat),
            tile_type is Some <==> index < TILE_COUNT,
    {
        if index == 0 {
            Some(TileType::Brick)
        } else if index == 1 {
            Some(TileType::Wood)
        } else if index == 2 {
            Some(TileType::Metal)
        } else if index == 3 {
            Some(TileType::Air)
        } else {
            None
        }
    }
}

/// Catalog positions and tile types correspond one to one.
pub proof fn lemma_index_round_trip(tile_type: TileType, index: nat)
    ensures
        TileType::spec_from_index(tile_type.spec_index()) == Some(tile_type),
        TileType::spec_from_index(index) matches Some(t) ==> t.spec_index() == index,
{
}

/// A rectangle of the texture atlas, in whole atlas units.
#[derive(PartialEq, Eq, Structural, Copy, Clone, Debug)]
pub struct AtlasRect {
    pub x: u32,
    pub y: u32,
    pub w: u32,
    pub h: u32,
}

impl AtlasRect {
    /// Whether `inner` lies within this rectangle.
    pub open spec fn encloses(self, inner: AtlasRect) -> bool {
        &&& self.x <= inner.x
        &&& self.y <= inner.y
        &&& inner.x + inner.w <= self.x + self.w
        &&& inner.y + inner.h <= self.y + self.h
    }

    /// Whether this rectangle and `other` have no point in common.
    pub open spec fn is_disjoint_from(self, other: AtlasRect) -> bool {
        ||| self.x + self.w <= other.x
        ||| other.x + other.w <= self.x
        ||| self.y + self.h <= other.y
        ||| other.y + other.h <= self.y
    }

    /// Whether this rectangle has the size of a tile type's atlas block.
    pub open spec fn is_tile_block(self) -> bool {
        self.w == REGION_WIDTH && self.h == REGION_HEIGHT
    }
}

/// What the catalog records of one tile type.
#[derive(PartialEq, Eq, Structural, Copy, Clone, Debug)]
pub struct TileDescriptor {
    pub tile_type: TileType,
    pub base_atlas_region: AtlasRect,
    pub collide: bool,
}

/// A tile placed in a level's grid. Its texture is unresolved until the level
/// has chosen it from the tile's neighbours.
#[derive(PartialEq, Eq, Structural, Copy, Clone, Debug)]
pub struct LevelTile {
    pub tile_type: TileType,
    pub tile_texture: Option<AtlasRect>,
    pub collide: bool,
}

/// The atlas block of a tile type.
pub open spec fn base_region(tile_type: TileType) -> AtlasRect {
    match tile_type {
        TileType::Air => AtlasRect { x: 0, y: 93, w: 71, h: 17 },
        _ => AtlasRect { x: 0, y: 111, w: 71, h: 17 },
    }
}

/// The catalog entry of a tile type: every type but `Air` collides.
pub open spec fn catalog_entry(tile_type: TileType) -> TileDescriptor {
    TileDescriptor {
        tile_type,
        base_atlas_region: base_region(tile_type),
        collide: tile_type != TileType::Air,
    }
}

/// A freshly placed tile of a type: the catalog's collision flag, no texture yet.
pub open spec fn fresh_tile(tile_type: TileType) -> LevelTile {
    LevelTile { tile_type, tile_texture: None, collide: catalog_entry(tile_type).collide }
}

/// The cell numbered `index` of an atlas block: cells are laid out row by row,
/// `TILE_ROW_SIZE` to a row, each `TILE_DIMS` wide and high and `TILE_STRIDE` apart.
pub open spec fn atlas_cell(region: AtlasRect, index: nat) -> AtlasRect {
    AtlasRect {
        x: (region.x + TILE_STRIDE * (index % (TILE_ROW_SIZE as nat))) as u32,
        y: (region.y + TILE_STRIDE * (index / (TILE_ROW_SIZE as nat))) as u32,
        w: TILE_DIMS,
        h: TILE_DIMS,
    }
}

/// Looks a tile type up in the catalog.
pub fn tile_descriptor(tile_type: TileType) -> (entry: TileDescriptor)
    ensures
        entry == catalog_entry(tile_type),
        entry.base_atlas_region.is_tile_block(),
{
    match tile_type {
        TileType::Brick => TileDescriptor {
            tile_type,
            base_atlas_region: AtlasRect { x: 0, y: 111, w: 71, h: 17 },
            collide: true,
        },
        TileType::Wood => TileDescriptor {
            tile_type,
            base_atlas_region: AtlasRect { x: 0, y: 111, w: 71, h: 17 },
            collide: true,
        },
        TileType::Metal => TileDescriptor {
            tile_type,
            base_atlas_region: AtlasRect { x: 0, y: 111, w: 71, h: 17 },
            collide: true,
        },
        TileType::Air => TileDescriptor {
            tile_type,
            base_atlas_region: AtlasRect { x: 0, y: 93, w: 71, h: 17 },
            collide: false,
        },
    }
}

/// Makes the tile that is placed in a grid for a tile type.
pub fn type_to_tile(t_type: TileType) -> (tile: LevelTile)
    ensures
        tile == fresh_tile(t_type),
{
    let entry = tile_descriptor(t_type);
    LevelTile { tile_type: entry.tile_type, tile_texture: None, collide: entry.collide }
}

/// Gives the cell numbered `index` of the atlas block `region`.
///
/// The corner of the cell must be expressible in atlas units.
pub fn get_tile_texture_rect(region: AtlasRect, index: usize) -> (rect: AtlasRect)
    requires
        region.x + TILE_STRIDE * (TILE_ROW_SIZE - 1) <= u32::MAX,
        region.y + TILE_STRIDE * (index / (TILE_ROW_SIZE as usize)) <= u32::MAX,
    ensures
        rect == atlas_cell(region, index as nat),
        rect.x == region.x + TILE_STRIDE * (index % (TILE_ROW_SIZE as usize)),
        rect.y == region.y + TILE_STRIDE * (index / (TILE_ROW_SIZE as usize)),
        rect.w == TILE_DIMS,
        rect.h == TILE_DIMS,
{
    let col: usize = index % 8;
    let row: usize = index / 8;
    AtlasRect {
        x: region.x + TILE_STRIDE * (col as u32),
        y: region.y + TILE_STRIDE * (row as u32),
        w: TILE_DIMS,
        h: TILE_DIMS,
    }
}

/// The sixteen cells of a tile type's atlas block lie within the block, and no
/// two of them overlap.
pub proof fn lemma_cells_tile_the_block(region: AtlasRect, index: nat, other: nat)
    requires
        region.is_tile_block(),
        region.x + REGION_WIDTH <= u32::MAX,
        region.y + REGION_HEIGHT <= u32::MAX,
        index < 16,
        other < 16,
    ensures
        region.encloses(atlas_cell(region, index)),
        index != other ==> atlas_cell(region, index).is_disjoint_from(atlas_cell(region, other)),
{
}

} // verus!
