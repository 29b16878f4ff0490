use life_core::engine::{advance, seed};
use life_core::grid::{Error, Grid};
use rand::rngs::StdRng;
use rand::SeedableRng;

fn grid_with_live(width: usize, height: usize, live: &[(usize, usize)]) -> Grid {
    let mut g = Grid::new(width, height).expect("dimensions are valid");
    for &(x, y) in live {
        g.set(x, y, true);
    }
    g
}

fn live_cells(g: &Grid, width: usize, height: usize) -> Vec<(usize, usize)> {
    let mut live: Vec<(usize, usize)> = Vec::new();
    for y in 0..height {
        for x in 0..width {
            if g.get(x, y) {
                live.push((x, y));
            }
        }
    }
    live
}

#[test]
fn all_dead_stays_all_dead() {
    let g = grid_with_live(6, 4, &[]);
    let next = advance(&g);
    assert_eq!(live_cells(&next, 6, 4), vec![]);
}

#[test]
fn isolated_cell_dies_of_underpopulation() {
    let g = grid_with_live(5, 5, &[(2, 2)]);
    let next = advance(&g);
    assert_eq!(live_cells(&next, 5, 5), vec![]);
}

#[test]
fn live_cell_with_two_neighbors_survives() {
    // Vertical triple: the center has exactly two live neighbors.
    let g = grid_with_live(5, 5, &[(2, 1), (2, 2), (2, 3)]);
    let next = advance(&g);
    assert!(next.get(2, 2));
    // The ends have one live neighbor each and die.
    assert!(!next.get(2, 1));
    assert!(!next.get(2, 3));
}

#[test]
fn live_cell_with_three_neighbors_survives() {
    // A block: every live cell has exactly three live neighbors.
    let g = grid_with_live(5, 5, &[(1, 1), (2, 1), (1, 2), (2, 2)]);
    let next = advance(&g);
    assert!(next.get(1, 1));
    assert!(next.get(2, 1));
    assert!(next.get(1, 2));
    assert!(next.get(2, 2));
}

#[test]
fn live_cell_with_four_neighbors_dies() {
    // A plus sign: the center has four live neighbors.
    let g = grid_with_live(7, 7, &[(3, 3), (2, 3), (4, 3), (3, 2), (3, 4)]);
    let next = advance(&g);
    assert!(!next.get(3, 3), "overpopulated center must die");
}

#[test]
fn dead_cell_with_three_neighbors_is_born() {
    let g = grid_with_live(5, 5, &[(1, 2), (2, 2), (3, 2)]);
    let next = advance(&g);
    assert!(next.get(2, 1), "three neighbors in the row below give birth");
    assert!(next.get(2, 3), "three neighbors in the row above give birth");
}

#[test]
fn block_is_a_still_life() {
    let g = grid_with_live(4, 4, &[(0, 0), (1, 0), (0, 1), (1, 1)]);
    let next = advance(&g);
    assert_eq!(live_cells(&next, 4, 4), live_cells(&g, 4, 4));
}

#[test]
fn blinker_oscillates_with_period_two() {
    let g = grid_with_live(5, 5, &[(1, 2), (2, 2), (3, 2)]);
    let g1 = advance(&g);
    assert_eq!(live_cells(&g1, 5, 5), vec![(2, 1), (2, 2), (2, 3)]);
    let g2 = advance(&g1);
    assert_eq!(live_cells(&g2, 5, 5), live_cells(&g, 5, 5));
}

#[test]
fn full_row_wraps_around_the_torus() {
    // On a 3x3 torus a full live row resurrects everything, and a full board
    // then dies of overpopulation.
    let g = grid_with_live(3, 3, &[(0, 0), (1, 0), (2, 0)]);
    let g1 = advance(&g);
    assert_eq!(live_cells(&g1, 3, 3).len(), 9);
    let g2 = advance(&g1);
    assert_eq!(live_cells(&g2, 3, 3), vec![]);
}

#[test]
fn advance_leaves_its_input_unchanged() {
    let live = [(1, 2), (2, 2), (3, 2), (0, 0)];
    let g = grid_with_live(6, 6, &live);
    let before = live_cells(&g, 6, 6);
    let _ = advance(&g);
    assert_eq!(live_cells(&g, 6, 6), before);
}

#[test]
fn advance_on_equal_copies_gives_equal_outputs() {
    let live = [(1, 1), (2, 1), (3, 3), (0, 4), (4, 0)];
    let a = grid_with_live(5, 5, &live);
    let b = grid_with_live(5, 5, &live);
    let next_a = advance(&a);
    let next_b = advance(&b);
    assert_eq!(live_cells(&next_a, 5, 5), live_cells(&next_b, 5, 5));
}

#[test]
fn seed_density_zero_is_all_dead() {
    let mut rng = StdRng::seed_from_u64(7);
    let g = seed(6, 5, 0, 1, &mut rng).expect("valid parameters");
    assert_eq!(live_cells(&g, 6, 5), vec![]);
}

#[test]
fn seed_density_one_is_all_alive() {
    let mut rng = StdRng::seed_from_u64(7);
    let g = seed(4, 4, 3, 3, &mut rng).expect("valid parameters");
    assert_eq!(live_cells(&g, 4, 4).len(), 16);
}

#[test]
fn seed_is_reproducible_with_a_fixed_seed() {
    let mut rng_a = StdRng::seed_from_u64(42);
    let mut rng_b = StdRng::seed_from_u64(42);
    let a = seed(8, 8, 1, 2, &mut rng_a).expect("valid parameters");
    let b = seed(8, 8, 1, 2, &mut rng_b).expect("valid parameters");
    assert_eq!(live_cells(&a, 8, 8), live_cells(&b, 8, 8));
}

#[test]
fn seed_rejects_zero_dimensions() {
    let mut rng = StdRng::seed_from_u64(1);
    assert_eq!(seed(0, 4, 1, 2, &mut rng).unwrap_err(), Error::InvalidDimensions);
    assert_eq!(seed(4, 0, 1, 2, &mut rng).unwrap_err(), Error::InvalidDimensions);
}

#[test]
fn seed_rejects_invalid_density() {
    let mut rng = StdRng::seed_from_u64(1);
    assert_eq!(seed(4, 4, 1, 0, &mut rng).unwrap_err(), Error::InvalidParameter);
    assert_eq!(seed(4, 4, 3, 2, &mut rng).unwrap_err(), Error::InvalidParameter);
}

#[test]
fn seed_reports_bad_dimensions_before_bad_density() {
    let mut rng = StdRng::seed_from_u64(1);
    assert_eq!(seed(0, 0, 3, 2, &mut rng).unwrap_err(), Error::InvalidDimensions);
}
