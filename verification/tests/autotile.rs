use downtone_level::autotile::autotile_index;
use downtone_level::autotile::Adjacency;
use downtone_level::autotile::ART_COUNT;
use downtone_level::autotile::ART_ISOLATED;
use downtone_level::autotile::ART_SURROUNDED;
use downtone_level::autotile::EDGE_MATCHES;

fn art(up: bool, right: bool, down: bool, left: bool) -> usize {
    autotile_index(Adjacency { up, right, down, left })
}

#[test]
fn no_matching_neighbour() {
    assert_eq!(art(false, false, false, false), 0);
    assert_eq!(ART_ISOLATED, 0);
}

#[test]
fn four_matching_neighbours() {
    assert_eq!(art(true, true, true, true), 8);
    assert_eq!(ART_SURROUNDED, 8);
}

#[test]
fn one_matching_neighbour() {
    assert_eq!(art(true, false, false, false), 14);
    assert_eq!(art(false, true, false, false), 6);
    assert_eq!(art(false, false, true, false), 7);
    assert_eq!(art(false, false, false, true), 15);
}

#[test]
fn two_matching_neighbours_at_a_corner() {
    assert_eq!(art(false, true, true, false), 1);
    assert_eq!(art(false, false, true, true), 2);
    assert_eq!(art(true, true, false, false), 9);
    assert_eq!(art(true, false, false, true), 10);
}

#[test]
fn two_matching_neighbours_across() {
    assert_eq!(art(true, false, true, false), 5);
    assert_eq!(art(false, true, false, true), 13);
}

#[test]
fn three_matching_neighbours() {
    assert_eq!(art(true, true, true, false), 3);
    assert_eq!(art(false, true, true, true), 4);
    assert_eq!(art(true, true, false, true), 11);
    assert_eq!(art(true, false, true, true), 12);
}

#[test]
fn the_sixteen_combinations_get_sixteen_different_pieces_of_art() {
    let mut seen = [false; 16];
    for bits in 0..16 {
        let index = art(bits & 8 != 0, bits & 4 != 0, bits & 2 != 0, bits & 1 != 0);
        assert!(index < ART_COUNT);
        assert!(!seen[index]);
        seen[index] = true;
    }
    assert!(seen.iter().all(|used| *used));
}

#[test]
fn the_border_of_the_grid_counts_as_matching() {
    assert!(EDGE_MATCHES);
}
