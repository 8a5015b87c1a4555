use downtone_level::coords::screen_to_lvl_coords;
use downtone_level::coords::CameraView;
use downtone_level::coords::LevelPos;
use downtone_level::coords::PixelPos;
use downtone_level::coords::ScreenSize;
use downtone_level::error::LevelError;
use downtone_level::format::piece_from_string;
use downtone_level::level::Level;
use downtone_level::level::Rgb;
use downtone_level::light::light_for_cell;
use downtone_level::piece::LevelPiece;
use downtone_level::tile::AtlasRect;
use downtone_level::tile::LevelTile;
use downtone_level::tile::TileType;

const GREY: Rgb = Rgb { r: 77, g: 83, b: 102 };

fn piece(text: &str) -> LevelPiece {
    piece_from_string(String::from(text)).unwrap()
}

fn level_of(text: &str) -> Level {
    let mut level = Level::new(GREY);
    level.push_piece(&piece(text)).unwrap();
    level
}

fn texture(level: &Level, x: usize, y: usize) -> AtlasRect {
    level.get_tile(x, y).unwrap().tile_texture.unwrap()
}

/// The cell of the atlas block at `(0, base_y)` that holds the art `index`.
fn cell(base_y: u32, index: u32) -> AtlasRect {
    AtlasRect { x: 9 * (index % 8), y: base_y + 9 * (index / 8), w: 8, h: 8 }
}

fn lights(level: &Level) -> Vec<Vec<u8>> {
    let mut rows = Vec::new();
    for y in 0..level.height() {
        let mut row = Vec::new();
        let mut x = 0;
        while let Some(light) = level.get_light(x, y) {
            row.push(light);
            x += 1;
        }
        rows.push(row);
    }
    rows
}

fn camera(scroll_y: i32) -> CameraView {
    CameraView { scroll: PixelPos { x: 0, y: scroll_y } }
}

#[test]
fn a_new_level_is_empty() {
    let level = Level::new(GREY);
    assert_eq!(level.height(), 0);
    assert_eq!(level.width(), 0);
    assert_eq!(level.get_tile(0, 0), None);
    assert_eq!(level.get_light(0, 0), None);
    assert_eq!(level.color(), GREY);
}

#[test]
fn pushing_a_piece_into_an_empty_level_gives_the_height_of_the_piece() {
    for height in 1..6 {
        let rows = vec![vec![TileType::Brick; 4]; height];
        let mut level = Level::new(GREY);
        assert_eq!(level.push_piece(&LevelPiece { data: rows }), Ok(()));
        assert_eq!(level.height(), height);
        assert_eq!(level.width(), 4);
    }
}

#[test]
fn the_height_is_the_sum_of_the_heights_of_the_pieces() {
    let mut level = Level::new(GREY);
    level.push_piece(&piece("0:3~1:3")).unwrap();
    assert_eq!(level.height(), 2);
    level.push_piece(&piece("2:3")).unwrap();
    assert_eq!(level.height(), 3);
    level.push_piece(&piece("3:3~3:3~0:3")).unwrap();
    assert_eq!(level.height(), 6);
}

#[test]
fn pieces_are_placed_below_each_other_in_order() {
    let mut level = Level::new(GREY);
    level.push_piece(&piece("0:1_1:1~2:2")).unwrap();
    level.push_piece(&piece("3:1_0:1")).unwrap();
    let types: Vec<Vec<TileType>> = (0..3)
        .map(|y| (0..2).map(|x| level.get_tile(x, y).unwrap().tile_type).collect())
        .collect();
    assert_eq!(
        types,
        vec![
            vec![TileType::Brick, TileType::Wood],
            vec![TileType::Metal, TileType::Metal],
            vec![TileType::Air, TileType::Brick],
        ]
    );
}

#[test]
fn placed_tiles_come_from_the_catalog() {
    let level = level_of("0:1_3:1");
    assert_eq!(
        level.get_tile(0, 0),
        Some(LevelTile { tile_type: TileType::Brick, tile_texture: None, collide: true })
    );
    assert_eq!(
        level.get_tile(1, 0),
        Some(LevelTile { tile_type: TileType::Air, tile_texture: None, collide: false })
    );
}

#[test]
fn a_piece_without_rows_is_refused() {
    let mut level = level_of("0:2~1:2");
    let empty = LevelPiece { data: vec![] };
    assert_eq!(level.push_piece(&empty), Err(LevelError::EmptyPieceError));
    assert_eq!(level.height(), 2);
    assert_eq!(level.width(), 2);
    assert_eq!(level.get_tile(1, 1).unwrap().tile_type, TileType::Wood);
    let mut fresh = Level::new(GREY);
    assert_eq!(fresh.push_piece(&empty), Err(LevelError::EmptyPieceError));
    assert_eq!(fresh.height(), 0);
}

#[test]
fn a_row_without_cells_is_placed_as_it_is() {
    let mut level = Level::new(GREY);
    assert_eq!(level.push_piece(&LevelPiece { data: vec![vec![]] }), Ok(()));
    assert_eq!(level.height(), 1);
    assert_eq!(level.width(), 0);
}

#[test]
fn placing_a_piece_keeps_the_colour() {
    let level = level_of("0:1");
    assert_eq!(level.color(), GREY);
}

#[test]
fn the_width_is_that_of_the_first_row() {
    let level = level_of("0:3~0:5~0:1");
    assert_eq!(level.width(), 3);
    assert_eq!(level.height(), 3);
}

#[test]
fn get_tile_tells_where_the_level_has_no_cell() {
    let level = level_of("0:3~0:5~0:1");
    assert!(level.get_tile(2, 0).is_some());
    assert!(level.get_tile(3, 0).is_none());
    assert!(level.get_tile(4, 1).is_some());
    assert!(level.get_tile(5, 1).is_none());
    assert!(level.get_tile(0, 2).is_some());
    assert!(level.get_tile(1, 2).is_none());
    assert!(level.get_tile(0, 3).is_none());
    assert!(level.get_tile(usize::MAX, usize::MAX).is_none());
}

#[test]
fn comp_tile_compares_the_type() {
    let level = level_of("0:1_1:1~3:2");
    assert!(level.comp_tile(0, 0, &TileType::Brick));
    assert!(!level.comp_tile(0, 0, &TileType::Wood));
    assert!(level.comp_tile(1, 0, &TileType::Wood));
    assert!(level.comp_tile(1, 1, &TileType::Air));
    assert!(!level.comp_tile(2, 0, &TileType::Air));
    assert!(!level.comp_tile(0, 2, &TileType::Brick));
}

#[test]
fn fresh_rows_are_as_bright_as_can_be() {
    let mut level = level_of("0:3~1:2");
    assert_eq!(lights(&level), vec![vec![60, 60, 60], vec![60, 60]]);
    level.push_piece(&piece("2:1")).unwrap();
    assert_eq!(lights(&level), vec![vec![60, 60, 60], vec![60, 60], vec![60]]);
}

#[test]
fn the_lightmap_has_the_shape_of_the_tiles() {
    let mut level = level_of("0:3~1:5~2:1");
    level.push_piece(&piece("3:4")).unwrap();
    for y in 0..6 {
        for x in 0..7 {
            assert_eq!(level.get_tile(x, y).is_some(), level.get_light(x, y).is_some());
        }
    }
}

#[test]
fn a_lone_tile_is_surrounded_by_the_border() {
    let mut level = level_of("0:1");
    level.init_textures();
    assert_eq!(texture(&level, 0, 0), cell(111, 8));
}

#[test]
fn a_grid_of_one_type_gets_the_inner_art_everywhere() {
    let mut level = level_of("1:4~1:4~1:4");
    level.init_textures();
    for y in 0..3 {
        for x in 0..4 {
            assert_eq!(texture(&level, x, y), cell(111, 8));
        }
    }
}

#[test]
fn an_isolated_tile_inside_the_grid_gets_the_art_of_a_lone_tile() {
    let mut level = level_of("3:3~3:1_0:1_3:1~3:3");
    level.init_textures();
    assert_eq!(texture(&level, 1, 1), cell(111, 0));
    assert_eq!(texture(&level, 1, 1), AtlasRect { x: 0, y: 111, w: 8, h: 8 });
}

#[test]
fn the_neighbours_of_an_isolated_tile() {
    let mut level = level_of("3:3~3:1_0:1_3:1~3:3");
    level.init_textures();
    // Air all around the brick: each cell of air misses the brick on one side at most.
    assert_eq!(texture(&level, 0, 0), cell(93, 8));
    assert_eq!(texture(&level, 1, 0), cell(93, 11));
    assert_eq!(texture(&level, 0, 1), cell(93, 12));
    assert_eq!(texture(&level, 2, 1), cell(93, 3));
    assert_eq!(texture(&level, 1, 2), cell(93, 4));
    assert_eq!(texture(&level, 2, 2), cell(93, 8));
}

#[test]
fn each_of_the_sixteen_cases_in_a_grid() {
    // A plus of bricks in air, with a brick ring around a lone brick below it.
    let text = "3:2_0:1_3:2~\
                3:1_0:3_3:1~\
                3:2_0:1_3:2~\
                3:5~\
                3:1_0:3_3:1~\
                3:1_0:1_3:1_0:1_3:1~\
                3:1_0:3_3:1~\
                3:5~\
                3:2_0:1_3:2~\
                3:5~\
                3:1_0:2_3:2~\
                3:5";
    let mut level = level_of(text);
    level.init_textures();
    // The plus: its top is a cap that opens at the border, so it joins upwards too.
    assert_eq!(texture(&level, 2, 0), cell(111, 5));
    assert_eq!(texture(&level, 1, 1), cell(111, 6));
    assert_eq!(texture(&level, 2, 1), cell(111, 8));
    assert_eq!(texture(&level, 3, 1), cell(111, 15));
    assert_eq!(texture(&level, 2, 2), cell(111, 14));
    // The ring.
    assert_eq!(texture(&level, 1, 4), cell(111, 1));
    assert_eq!(texture(&level, 2, 4), cell(111, 13));
    assert_eq!(texture(&level, 3, 4), cell(111, 2));
    assert_eq!(texture(&level, 1, 5), cell(111, 5));
    assert_eq!(texture(&level, 3, 5), cell(111, 5));
    assert_eq!(texture(&level, 1, 6), cell(111, 9));
    assert_eq!(texture(&level, 2, 6), cell(111, 13));
    assert_eq!(texture(&level, 3, 6), cell(111, 10));
    // The hole in the ring, a lone cell of air.
    assert_eq!(texture(&level, 2, 5), cell(93, 0));
    // A lone brick, and two bricks side by side.
    assert_eq!(texture(&level, 2, 8), cell(111, 0));
    assert_eq!(texture(&level, 1, 10), cell(111, 6));
    assert_eq!(texture(&level, 2, 10), cell(111, 15));
    // Air at the left border, between the plus and the ring.
    assert_eq!(texture(&level, 0, 3), cell(93, 8));
    // Air between two bricks, above and below.
    assert_eq!(texture(&level, 2, 3), cell(93, 13));
    // Air with a brick below it only, and with a brick above it only.
    assert_eq!(texture(&level, 1, 9), cell(93, 11));
    assert_eq!(texture(&level, 1, 7), cell(93, 4));
}

#[test]
fn a_cap_that_opens_downwards_and_edges_with_three_neighbours() {
    let mut level = level_of("3:5~3:2_0:1_3:2~3:1_0:3_3:1~3:1_0:3_3:1~3:5");
    level.init_textures();
    assert_eq!(texture(&level, 2, 1), cell(111, 7));
    assert_eq!(texture(&level, 1, 2), cell(111, 1));
    assert_eq!(texture(&level, 2, 2), cell(111, 8));
    assert_eq!(texture(&level, 3, 2), cell(111, 2));
    assert_eq!(texture(&level, 1, 3), cell(111, 9));
    assert_eq!(texture(&level, 2, 3), cell(111, 11));
    assert_eq!(texture(&level, 3, 3), cell(111, 10));
    let mut block = level_of("3:5~3:1_0:3_3:1~3:1_0:3_3:1~3:1_0:3_3:1~3:5");
    block.init_textures();
    assert_eq!(texture(&block, 2, 1), cell(111, 4));
    assert_eq!(texture(&block, 1, 2), cell(111, 3));
    assert_eq!(texture(&block, 3, 2), cell(111, 12));
    assert_eq!(texture(&block, 2, 3), cell(111, 11));
}

#[test]
fn tile_types_differ_though_they_share_an_atlas_block() {
    let mut level = level_of("0:1_1:1_2:1");
    level.init_textures();
    // Each has the border above and below, and another type beside it.
    assert_eq!(texture(&level, 0, 0), cell(111, 12));
    assert_eq!(texture(&level, 1, 0), cell(111, 5));
    assert_eq!(texture(&level, 2, 0), cell(111, 3));
}

#[test]
fn resolving_textures_leaves_the_rest_alone() {
    let mut level = level_of("0:2_3:1~1:3");
    let before_lights = lights(&level);
    level.init_textures();
    assert_eq!(level.height(), 2);
    assert_eq!(level.width(), 3);
    assert_eq!(lights(&level), before_lights);
    assert_eq!(level.color(), GREY);
    let air = level.get_tile(2, 0).unwrap();
    assert_eq!(air.tile_type, TileType::Air);
    assert!(!air.collide);
    let wood = level.get_tile(0, 1).unwrap();
    assert_eq!(wood.tile_type, TileType::Wood);
    assert!(wood.collide);
}

#[test]
fn after_resolving_every_tile_has_a_texture() {
    let mut level = level_of("0:2_3:1~1:3~2:1_3:2");
    for y in 0..3 {
        for x in 0..3 {
            assert!(level.get_tile(x, y).unwrap().tile_texture.is_none());
        }
    }
    level.init_textures();
    for y in 0..3 {
        for x in 0..3 {
            assert!(level.get_tile(x, y).unwrap().tile_texture.is_some());
        }
    }
}

#[test]
fn resolving_twice_changes_nothing() {
    let mut level = level_of("0:2_3:1~1:3~2:1_3:2");
    level.init_textures();
    let once: Vec<Option<LevelTile>> = (0..9).map(|i| level.get_tile(i % 3, i / 3)).collect();
    level.init_textures();
    let twice: Vec<Option<LevelTile>> = (0..9).map(|i| level.get_tile(i % 3, i / 3)).collect();
    assert_eq!(once, twice);
}

#[test]
fn rows_of_different_lengths_are_resolved_without_harm() {
    let mut level = level_of("0:2~0:4~0:1");
    level.init_textures();
    // Width is 2. The cell right of (1, 0) lies beyond the width: the border.
    assert_eq!(texture(&level, 1, 0), cell(111, 8));
    // (0, 2) has no cell to its right within the width.
    assert_eq!(texture(&level, 0, 2), cell(111, 12));
    // (1, 1) has no cell below it.
    assert_eq!(texture(&level, 1, 1), cell(111, 11));
    // (3, 1) lies beyond the width: nothing above or below, the border to the right.
    assert_eq!(texture(&level, 3, 1), cell(111, 13));
}

#[test]
fn init_tile_texture_resolves_one_tile() {
    let mut level = level_of("0:2~0:2");
    level.init_tile_texture(1, 0);
    assert_eq!(level.get_tile(0, 1).unwrap().tile_texture, Some(cell(111, 8)));
    assert_eq!(level.get_tile(0, 0).unwrap().tile_texture, None);
    assert_eq!(level.get_tile(1, 0).unwrap().tile_texture, None);
    assert_eq!(level.get_tile(1, 1).unwrap().tile_texture, None);
}

#[test]
fn update_light_sets_one_cell() {
    let mut level = level_of("0:3~0:3");
    level.update_light(2, 1, LevelPos { x: 0, y: 768 });
    assert_eq!(lights(&level), vec![vec![60, 60, 60], vec![60, 60, 44]]);
    level.update_light(0, 0, LevelPos { x: 0, y: 768 });
    assert_eq!(lights(&level), vec![vec![52, 60, 60], vec![60, 60, 44]]);
}

#[test]
fn the_lightmap_falls_off_around_the_player() {
    let mut level = level_of("0:16~0:16~0:16~0:16~0:16~0:16~0:16~0:16~0:16~0:16");
    let screen = ScreenSize { w: 768, h: 480 };
    // On a screen as wide as the level, the pixel (96, 144) is the corner of the cell (2, 3).
    level.update_lightmap(&camera(0), screen, PixelPos { x: 96, y: 144 });
    assert_eq!(level.get_light(2, 3), Some(60));
    assert_eq!(level.get_light(3, 3), Some(52));
    assert_eq!(level.get_light(2, 2), Some(52));
    assert_eq!(level.get_light(3, 4), Some(49));
    assert_eq!(level.get_light(7, 3), Some(20));
    assert_eq!(level.get_light(2, 8), Some(20));
    assert_eq!(level.get_light(8, 3), Some(12));
    assert_eq!(level.get_light(15, 9), Some(12));
    assert!(level.get_light(2, 3) >= level.get_light(7, 3));
}

#[test]
fn the_lightmap_is_what_the_cells_get_one_by_one() {
    let mut level = level_of("0:5~0:5~0:5~0:5");
    let screen = ScreenSize { w: 800, h: 600 };
    let player = PixelPos { x: 150, y: 150 };
    level.update_lightmap(&camera(0), screen, player);
    let pos = screen_to_lvl_coords(player.x, player.y, screen.w);
    for y in 0..4 {
        for x in 0..5 {
            assert_eq!(level.get_light(x, y), Some(light_for_cell(x, y, pos)));
        }
    }
}

#[test]
fn lighting_leaves_tiles_and_colour_alone() {
    let mut level = level_of("0:2_3:1~1:3");
    level.init_textures();
    let tiles: Vec<Option<LevelTile>> = (0..6).map(|i| level.get_tile(i % 3, i / 3)).collect();
    level.update_lightmap(&camera(0), ScreenSize { w: 768, h: 480 }, PixelPos { x: 0, y: 0 });
    let after: Vec<Option<LevelTile>> = (0..6).map(|i| level.get_tile(i % 3, i / 3)).collect();
    assert_eq!(tiles, after);
    assert_eq!(level.color(), GREY);
    assert_eq!(level.height(), 2);
}

#[test]
fn only_the_band_around_the_screen_is_lit() {
    let rows = vec![vec![TileType::Brick; 2]; 40];
    let mut level = Level::new(GREY);
    level.push_piece(&LevelPiece { data: rows }).unwrap();
    // A screen 96 pixels high shows two rows. Scrolled to row 10, the band is
    // rows 8 to 14.
    let screen = ScreenSize { w: 768, h: 96 };
    level.update_lightmap(&camera(480), screen, PixelPos { x: 4800, y: 4800 });
    for y in 0..40 {
        let expected = if (8..=14).contains(&y) { 12 } else { 60 };
        assert_eq!(level.get_light(0, y), Some(expected));
        assert_eq!(level.get_light(1, y), Some(expected));
    }
}

#[test]
fn the_band_stays_within_the_grid() {
    let rows = vec![vec![TileType::Brick; 1]; 5];
    let mut top = Level::new(GREY);
    top.push_piece(&LevelPiece { data: rows.clone() }).unwrap();
    let screen = ScreenSize { w: 768, h: 48 };
    let far = PixelPos { x: 48000, y: 48000 };
    // Scrolled above the level: the band is rows 0 to 3.
    top.update_lightmap(&camera(-4800), screen, far);
    assert_eq!(lights(&top), vec![vec![12], vec![12], vec![12], vec![12], vec![60]]);
    // Scrolled below the level: the band is the last row.
    let mut bottom = Level::new(GREY);
    bottom.push_piece(&LevelPiece { data: rows.clone() }).unwrap();
    bottom.update_lightmap(&camera(4800), screen, far);
    assert_eq!(lights(&bottom), vec![vec![60], vec![60], vec![60], vec![60], vec![12]]);
    // On a screen lower than a tile, the band is one row.
    let mut flat = Level::new(GREY);
    flat.push_piece(&LevelPiece { data: rows }).unwrap();
    flat.update_lightmap(&camera(96), ScreenSize { w: 768, h: 47 }, far);
    assert_eq!(lights(&flat), vec![vec![60], vec![60], vec![12], vec![60], vec![60]]);
}

#[test]
fn scroll_positions_are_cut_off_towards_zero() {
    let rows = vec![vec![TileType::Brick; 1]; 4];
    let screen = ScreenSize { w: 768, h: 0 };
    let far = PixelPos { x: 48000, y: 48000 };
    let mut level = Level::new(GREY);
    level.push_piece(&LevelPiece { data: rows.clone() }).unwrap();
    level.update_lightmap(&camera(95), screen, far);
    assert_eq!(lights(&level), vec![vec![60], vec![12], vec![60], vec![60]]);
    let mut above = Level::new(GREY);
    above.push_piece(&LevelPiece { data: rows }).unwrap();
    above.update_lightmap(&camera(-47), screen, far);
    assert_eq!(lights(&above), vec![vec![12], vec![60], vec![60], vec![60]]);
}

#[test]
fn lighting_small_levels() {
    let screen = ScreenSize { w: 768, h: 480 };
    let mut empty = Level::new(GREY);
    empty.update_lightmap(&camera(0), screen, PixelPos { x: 0, y: 0 });
    assert_eq!(empty.height(), 0);
    let mut one = level_of("0:2");
    one.update_lightmap(&camera(0), screen, PixelPos { x: 48, y: 0 });
    assert_eq!(lights(&one), vec![vec![52, 60]]);
    let mut no_cells = Level::new(GREY);
    no_cells.push_piece(&LevelPiece { data: vec![vec![], vec![]] }).unwrap();
    no_cells.update_lightmap(&camera(0), screen, PixelPos { x: 0, y: 0 });
    assert_eq!(lights(&no_cells), vec![Vec::<u8>::new(), Vec::<u8>::new()]);
}

#[test]
fn only_the_columns_below_the_width_are_lit() {
    let mut level = level_of("0:2~0:4~0:1");
    let far = PixelPos { x: 48000, y: 48000 };
    level.update_lightmap(&camera(0), ScreenSize { w: 768, h: 480 }, far);
    assert_eq!(lights(&level), vec![vec![12, 12], vec![12, 12, 60, 60], vec![12]]);
}

#[test]
fn lighting_again_follows_the_player() {
    let mut level = level_of("0:8~0:8");
    let screen = ScreenSize { w: 768, h: 480 };
    level.update_lightmap(&camera(0), screen, PixelPos { x: 0, y: 0 });
    assert_eq!(level.get_light(0, 0), Some(60));
    assert_eq!(level.get_light(5, 0), Some(20));
    level.update_lightmap(&camera(0), screen, PixelPos { x: 240, y: 0 });
    assert_eq!(level.get_light(0, 0), Some(20));
    assert_eq!(level.get_light(5, 0), Some(60));
}
