use gray_scott::grid::{ConfigError, Grid};
use gray_scott::model::Axis;

fn grid_from(width: usize, height: usize, values: &[i64]) -> Grid {
    assert_eq!(values.len(), width * height);
    let mut g = Grid::new(width, height, 0).unwrap();
    for r in 0..height {
        for c in 0..width {
            g.set(r, c, values[r * width + c]);
        }
    }
    g
}

fn cells_of(g: &Grid) -> Vec<i64> {
    let mut out = Vec::new();
    for r in 0..g.height() {
        for c in 0..g.width() {
            out.push(g.get(r, c));
        }
    }
    out
}

#[test]
fn new_fills_every_cell() {
    let g = Grid::new(4, 3, 7).unwrap();
    assert_eq!(g.width(), 4);
    assert_eq!(g.height(), 3);
    for r in 0..3 {
        for c in 0..4 {
            assert_eq!(g.get(r, c), 7);
        }
    }
}

#[test]
fn new_rejects_dimension_below_two() {
    assert_eq!(Grid::new(1, 5, 0).err().unwrap(), ConfigError::DimensionTooSmall);
    assert_eq!(Grid::new(5, 0, 0).err().unwrap(), ConfigError::DimensionTooSmall);
}

#[test]
fn new_rejects_dimension_above_max() {
    assert_eq!(Grid::new(4097, 5, 0).err().unwrap(), ConfigError::DimensionTooLarge);
    assert_eq!(Grid::new(8, 1_000_000, 0).err().unwrap(), ConfigError::DimensionTooLarge);
}

#[test]
fn set_then_get_roundtrip() {
    let mut g = Grid::new(3, 3, 0).unwrap();
    g.set(2, 1, -42);
    assert_eq!(g.get(2, 1), -42);
    assert_eq!(g.get(1, 2), 0);
}

#[test]
fn shift_moves_columns_with_wraparound() {
    let g = grid_from(3, 3, &[1, 2, 3, 4, 5, 6, 7, 8, 9]);
    let s = g.shift(1, Axis::Col);
    // every cell takes the value one column to the right, wrapping
    assert_eq!(cells_of(&s), vec![2, 3, 1, 5, 6, 4, 8, 9, 7]);
    let back = g.shift(-1, Axis::Col);
    assert_eq!(cells_of(&back), vec![3, 1, 2, 6, 4, 5, 9, 7, 8]);
}

#[test]
fn shift_moves_rows_with_wraparound() {
    let g = grid_from(3, 3, &[1, 2, 3, 4, 5, 6, 7, 8, 9]);
    let s = g.shift(1, Axis::Row);
    assert_eq!(cells_of(&s), vec![4, 5, 6, 7, 8, 9, 1, 2, 3]);
    let back = g.shift(-1, Axis::Row);
    assert_eq!(cells_of(&back), vec![7, 8, 9, 1, 2, 3, 4, 5, 6]);
}

#[test]
fn shift_full_cycle_is_identity_rows() {
    let original = grid_from(4, 3, &[1, 2, 3, 4, 5, 6, 7, 8, 9, 10, 11, 12]);
    let mut g = original.clone();
    for _ in 0..g.height() {
        g = g.shift(1, Axis::Row);
    }
    assert_eq!(cells_of(&g), cells_of(&original));
}

#[test]
fn shift_full_cycle_is_identity_columns() {
    let original = grid_from(4, 3, &[1, 2, 3, 4, 5, 6, 7, 8, 9, 10, 11, 12]);
    let mut g = original.clone();
    for _ in 0..g.width() {
        g = g.shift(1, Axis::Col);
    }
    assert_eq!(cells_of(&g), cells_of(&original));
}

#[test]
fn cells_in_range_detects_excursion() {
    let mut g = Grid::new(2, 2, 0).unwrap();
    assert!(g.cells_in_range());
    g.set(0, 1, 0x2_0000_0001);
    assert!(!g.cells_in_range());
}
