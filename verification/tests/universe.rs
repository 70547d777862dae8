use game_of_life::Universe;

fn empty(width: u32, height: u32) -> Universe {
    let seed = vec![false; (width * height) as usize];
    Universe::new(width, height, &seed)
}

fn alive_count(u: &Universe) -> usize {
    u.cells().iter().filter(|&&b| b).count()
}

fn is_alive(u: &Universe, row: u32, col: u32) -> bool {
    u.cells()[(row * u.width() + col) as usize]
}

#[test]
fn neighbor_wraparound() {
    let mut u = empty(3, 3);
    u.set_cells(&[(0, 0)]);
    assert_eq!(u.live_neighbor_count(2, 2), 1);
}

#[test]
fn neighbor_count_center() {
    let mut u = empty(5, 5);
    u.set_cells(&[(1, 1), (1, 2), (1, 3)]);
    assert_eq!(u.live_neighbor_count(2, 2), 3);
    assert_eq!(u.live_neighbor_count(0, 2), 3);
    assert_eq!(u.live_neighbor_count(2, 0), 1);
    assert_eq!(u.live_neighbor_count(3, 3), 0);
}

#[test]
fn neighbor_double_count_on_one_row_grid() {
    // With height 1 the offsets h-1 and 1 coincide with 0 and each other,
    // so a live neighbor is counted once per coinciding offset pair.
    let mut u = empty(3, 1);
    u.set_cells(&[(0, 0)]);
    assert_eq!(u.live_neighbor_count(0, 1), 3);
}

#[test]
fn glider_drifts_one_diagonal_step_every_four_ticks() {
    let mut u = empty(16, 16);
    u.deploy("glider", 5, 5);
    for _ in 0..4 {
        u.tick();
    }
    let mut expected = empty(16, 16);
    expected.deploy("glider", 6, 6);
    assert_eq!(u.cells(), expected.cells());
}

#[test]
fn block_is_a_still_life() {
    let mut u = empty(8, 8);
    u.set_cells(&[(3, 3), (3, 4), (4, 3), (4, 4)]);
    let before = u.cells();
    for _ in 0..6 {
        u.tick();
    }
    assert_eq!(u.cells(), before);
}

#[test]
fn dead_cell_with_three_neighbors_is_born() {
    let mut u = empty(7, 7);
    u.set_cells(&[(1, 1), (1, 2), (1, 3)]);
    assert!(!is_alive(&u, 2, 2));
    u.tick();
    assert!(is_alive(&u, 2, 2));
}

#[test]
fn dead_cell_with_two_neighbors_stays_dead() {
    let mut u = empty(7, 7);
    u.set_cells(&[(1, 1), (1, 3)]);
    u.tick();
    assert!(!is_alive(&u, 2, 2));
}

#[test]
fn dead_cell_with_four_neighbors_stays_dead() {
    let mut u = empty(7, 7);
    u.set_cells(&[(1, 1), (1, 2), (1, 3), (2, 1)]);
    u.tick();
    assert!(!is_alive(&u, 2, 2));
}

#[test]
fn alive_cell_with_one_neighbor_dies() {
    let mut u = empty(7, 7);
    u.set_cells(&[(2, 2), (2, 3)]);
    u.tick();
    assert!(!is_alive(&u, 2, 2));
}

#[test]
fn alive_cell_with_four_neighbors_dies() {
    let mut u = empty(7, 7);
    u.set_cells(&[(2, 2), (1, 1), (1, 3), (3, 1), (3, 3)]);
    u.tick();
    assert!(!is_alive(&u, 2, 2));
}

#[test]
fn set_width_discards_all_cells() {
    let mut u = empty(6, 6);
    u.deploy("glider", 3, 3);
    assert_eq!(alive_count(&u), 5);
    u.set_width(9);
    assert_eq!(u.width(), 9);
    assert_eq!(u.height(), 6);
    assert_eq!(u.cells().len(), 54);
    assert_eq!(alive_count(&u), 0);
}

#[test]
fn set_height_discards_all_cells() {
    let mut u = empty(6, 6);
    u.deploy("pulsar", 3, 3);
    assert!(alive_count(&u) > 0);
    u.set_height(4);
    assert_eq!(u.width(), 6);
    assert_eq!(u.height(), 4);
    assert_eq!(u.cells().len(), 24);
    assert_eq!(alive_count(&u), 0);
}

#[test]
fn unknown_pattern_is_a_no_op() {
    let mut u = empty(9, 9);
    u.set_cells(&[(0, 0), (4, 7), (8, 8)]);
    let before = u.cells();
    u.deploy("blinker", 4, 4);
    assert_eq!(u.cells(), before);
    u.deploy("", 0, 0);
    assert_eq!(u.cells(), before);
    u.deploy("gliderr", 4, 4);
    assert_eq!(u.cells(), before);
}

#[test]
fn bulk_set_twice_equals_once() {
    let mut once = empty(4, 4);
    once.set_cells(&[(1, 2)]);
    let mut twice = empty(4, 4);
    twice.set_cells(&[(1, 2), (1, 2)]);
    assert_eq!(once.cells(), twice.cells());
}

#[test]
fn deploy_ignores_ascii_case() {
    let mut upper = empty(12, 12);
    upper.deploy("GLIDER", 6, 6);
    let mut mixed = empty(12, 12);
    mixed.deploy("gLiDeR", 6, 6);
    assert_eq!(alive_count(&upper), 5);
    assert_eq!(upper.cells(), mixed.cells());
}

#[test]
fn deploy_folds_names_by_unicode_uppercase() {
    // U+0131 (dotless i) uppercases to 'I', so this name is the glider too.
    let mut plain = empty(12, 12);
    plain.deploy("glider", 6, 6);
    let mut dotless = empty(12, 12);
    dotless.deploy("gl\u{131}der", 6, 6);
    assert_eq!(plain.cells(), dotless.cells());
    assert_eq!(alive_count(&dotless), 5);
}

#[test]
fn pulsar_has_forty_eight_cells() {
    let mut u = empty(17, 17);
    u.deploy("Pulsar", 8, 8);
    assert_eq!(alive_count(&u), 48);
}

#[test]
fn deploy_wraps_around_the_edges() {
    let mut u = empty(8, 8);
    u.deploy("glider", 0, 0);
    assert_eq!(alive_count(&u), 5);
    assert!(is_alive(&u, 7, 1));
    assert!(is_alive(&u, 0, 7));
    assert!(is_alive(&u, 0, 1));
    assert!(is_alive(&u, 1, 0));
    assert!(is_alive(&u, 1, 1));
}

#[test]
fn toggle_cell_flips_one_cell() {
    let mut u = empty(4, 4);
    u.toggle_cell(1, 1);
    assert!(is_alive(&u, 1, 1));
    assert_eq!(alive_count(&u), 1);
    u.toggle_cell(1, 1);
    assert!(!is_alive(&u, 1, 1));
    assert_eq!(alive_count(&u), 0);
}

#[test]
fn clear_kills_everything_and_keeps_dimensions() {
    let mut u = empty(10, 6);
    u.deploy("glider", 3, 3);
    u.clear();
    assert_eq!(u.width(), 10);
    assert_eq!(u.height(), 6);
    assert_eq!(u.cells().len(), 60);
    assert_eq!(alive_count(&u), 0);
}

#[test]
fn new_takes_the_seed_as_given() {
    let seed = vec![
        true, false, false, true, false, true, true, false, false, false, true, true,
    ];
    let u = Universe::new(4, 3, &seed);
    assert_eq!(u.width(), 4);
    assert_eq!(u.height(), 3);
    assert_eq!(u.cells(), seed);
}

#[test]
fn tick_keeps_an_empty_grid_empty() {
    let mut u = empty(5, 5);
    u.tick();
    assert_eq!(alive_count(&u), 0);
    assert_eq!(u.cells().len(), 25);
}

#[test]
fn zero_width_makes_operations_no_ops() {
    let mut u = empty(4, 4);
    u.set_width(0);
    assert_eq!(u.cells().len(), 0);
    u.tick();
    u.deploy("glider", 0, 0);
    u.clear();
    assert_eq!(u.width(), 0);
    assert_eq!(u.height(), 4);
    assert_eq!(u.cells().len(), 0);
}

#[test]
fn blinker_oscillates_with_period_two() {
    let mut u = empty(5, 5);
    u.set_cells(&[(2, 1), (2, 2), (2, 3)]);
    let horizontal = u.cells();
    u.tick();
    assert!(is_alive(&u, 1, 2) && is_alive(&u, 2, 2) && is_alive(&u, 3, 2));
    assert_eq!(alive_count(&u), 3);
    u.tick();
    assert_eq!(u.cells(), horizontal);
}

#[test]
fn get_cells_exposes_the_packed_buffer() {
    let mut u = empty(5, 5);
    u.set_cells(&[(2, 3)]);
    let bits = u.get_cells();
    assert_eq!(bits.len(), 25);
    assert!(bits.contains(13));
    assert_eq!(bits.count_ones(..), 1);
}
