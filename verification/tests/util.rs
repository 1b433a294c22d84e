use terrain::util::MatrixHelper;

fn sample() -> Vec<Vec<u8>> {
    vec![vec![1, 2, 3], vec![4, 5, 6]]
}

#[test]
fn cell_finds_what_is_inside() {
    let grid = sample();
    assert_eq!(grid.cell(0, 0), Some(&1));
    assert_eq!(grid.cell(1, 2), Some(&6));
}

#[test]
fn cell_outside_is_none() {
    let grid = sample();
    assert_eq!(grid.cell(-1, 0), None);
    assert_eq!(grid.cell(0, -1), None);
    assert_eq!(grid.cell(2, 0), None);
    assert_eq!(grid.cell(0, 3), None);
    assert_eq!(grid.cell(i32::MAX, i32::MAX), None);
    assert_eq!(grid.cell(i32::MIN, i32::MIN), None);
}

#[test]
fn cell_in_a_ragged_grid_goes_by_the_row() {
    let grid: Vec<Vec<u8>> = vec![vec![1], vec![2, 3]];
    assert_eq!(grid.cell(0, 1), None);
    assert_eq!(grid.cell(1, 1), Some(&3));
}

#[test]
fn cell_relative_steps_from_a_cell() {
    let grid = sample();
    assert_eq!(grid.cell_relative(0, 0, (1, 1)), Some(&5));
    assert_eq!(grid.cell_relative(1, 2, (-1, -2)), Some(&1));
    assert_eq!(grid.cell_relative(0, 0, (-1, 0)), None);
    assert_eq!(grid.cell_relative(1, 2, (0, 1)), None);
    assert_eq!(grid.cell_relative(i32::MAX, 0, (1, 0)), None);
    assert_eq!(grid.cell_relative(0, i32::MIN, (0, -1)), None);
}

#[test]
fn neighbor_steps_from_an_index() {
    let grid = sample();
    assert_eq!(grid.neighbor(0, 1, (1, 1)), Some(&6));
    assert_eq!(grid.neighbor(0, 0, (0, -1)), None);
    assert_eq!(grid.neighbor(1, 0, (1, 0)), None);
    assert_eq!(grid.neighbor(usize::MAX, usize::MAX, (1, 1)), None);
    assert_eq!(grid.neighbor(3, 1, (-2, 0)), Some(&5));
}

#[test]
fn an_empty_grid_has_no_cell() {
    let grid: Vec<Vec<u8>> = Vec::new();
    assert_eq!(grid.cell(0, 0), None);
    assert_eq!(grid.neighbor(0, 0, (0, 0)), None);
}
