use life_core::grid::{Error, Grid, GridCell};

fn empty_grid(width: usize, height: usize) -> Grid {
    Grid::new(width, height).expect("dimensions are valid")
}

#[test]
fn grid_cell_new_stores_fields() {
    let c = GridCell::new(3, 7, true);
    assert_eq!(c.x, 3);
    assert_eq!(c.y, 7);
    assert!(c.is_alive);
    let d = GridCell::new(0, 0, false);
    assert!(!d.is_alive);
}

#[test]
fn new_rejects_zero_dimensions() {
    assert_eq!(Grid::new(0, 5).unwrap_err(), Error::InvalidDimensions);
    assert_eq!(Grid::new(5, 0).unwrap_err(), Error::InvalidDimensions);
    assert_eq!(Grid::new(0, 0).unwrap_err(), Error::InvalidDimensions);
}

#[test]
fn new_grid_is_all_dead() {
    let g = empty_grid(4, 3);
    for y in 0..3 {
        for x in 0..4 {
            assert!(!g.get(x, y));
        }
    }
}

#[test]
fn set_then_get_round_trip() {
    let mut g = empty_grid(5, 5);
    g.set(2, 3, true);
    assert!(g.get(2, 3));
    for y in 0..5 {
        for x in 0..5 {
            if (x, y) != (2, 3) {
                assert!(!g.get(x, y), "only (2, 3) was set");
            }
        }
    }
    g.set(2, 3, false);
    assert!(!g.get(2, 3));
}

#[test]
fn neighbor_coords_interior_cell() {
    let g = empty_grid(5, 5);
    let v = g.wrapped_neighbor_coords(2, 2);
    assert_eq!(
        v,
        vec![
            (1, 1),
            (2, 1),
            (3, 1),
            (1, 2),
            (3, 2),
            (1, 3),
            (2, 3),
            (3, 3),
        ]
    );
}

#[test]
fn neighbor_coords_wrap_at_corner() {
    let g = empty_grid(3, 3);
    let v = g.wrapped_neighbor_coords(0, 0);
    assert_eq!(
        v,
        vec![
            (2, 2),
            (0, 2),
            (1, 2),
            (2, 0),
            (1, 0),
            (2, 1),
            (0, 1),
            (1, 1),
        ]
    );
}

#[test]
fn neighbor_coords_are_eight_and_distinct_from_three_up() {
    for (w, h) in [(3, 3), (3, 4), (4, 3), (5, 7)] {
        let g = empty_grid(w, h);
        for y in 0..h {
            for x in 0..w {
                let v = g.wrapped_neighbor_coords(x, y);
                assert_eq!(v.len(), 8);
                for i in 0..8 {
                    assert_ne!(v[i], (x, y), "a cell is never its own neighbor here");
                    for j in 0..i {
                        assert_ne!(v[i], v[j], "no duplicates on a board >= 3x3");
                    }
                }
            }
        }
    }
}

#[test]
fn neighbor_coords_repeat_on_tiny_board() {
    // With a dimension of 2 the torus legitimately repeats coordinates: the
    // columns left and right of x are the same column.
    let g = empty_grid(2, 2);
    let v = g.wrapped_neighbor_coords(0, 0);
    assert_eq!(v.len(), 8);
    let duplicates = v
        .iter()
        .enumerate()
        .any(|(i, c)| v[..i].contains(c));
    assert!(duplicates, "expected toroidal repeats on a 2x2 board");
}
