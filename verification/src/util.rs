//! Grids as vectors of rows: bounds-checked access to their cells, and the
//! first index at which something holds.

use vstd::prelude::*;

verus! {

/// The rows of a matrix stored as a vector of vectors.
pub open spec fn rows_of<T>(matrix: Seq<Vec<T>>) -> Seq<Seq<T>> {
    matrix.map_values(|row: Vec<T>| row@)
}

/// The cell at (`row`, `col`), or `None` where that position lies outside the
/// matrix. Each row is bounded by its own length.
pub open spec fn cell_of<T>(rows: Seq<Seq<T>>, row: int, col: int) -> Option<T> {
    if 0 <= row < rows.len() && 0 <= col < rows[row].len() {
        Some(rows[row][col])
    } else {
        None
    }
}

/// A grid in which every row is as long as the first.
pub open spec fn is_rectangular<T>(grid: Seq<Seq<T>>) -> bool {
    forall|row: int| 0 <= row < grid.len() ==> (#[trigger] grid[row]).len() == grid[0].len()
}

/// Whether `found` is the outcome of looking up a position whose cell is `cell`.
pub open spec fn finds<T>(found: Option<&T>, cell: Option<T>) -> bool {
    match found {
        Some(value) => cell == Some(*value),
        None => cell is None,
    }
}

/// Whether `index` is the first below `len` at which `wanted` holds.
pub open spec fn is_first(len: int, wanted: spec_fn(int) -> bool, index: int) -> bool {
    &&& 0 <= index < len
    &&& wanted(index)
    &&& forall|earlier: int| 0 <= earlier < index ==> !#[trigger] wanted(earlier)
}

/// The first index below `len` at which `wanted` holds, if there is one.
pub open spec fn first_index(len: int, wanted: spec_fn(int) -> bool) -> Option<int> {
    if exists|index: int| is_first(len, wanted, index) {
        Some(choose|index: int| is_first(len, wanted, index))
    } else {
        None
    }
}

/// An index that is the first at which `wanted` holds is the one that
/// `first_index` gives.
pub proof fn lemma_first_index(len: int, wanted: spec_fn(int) -> bool, index: int)
    requires
        is_first(len, wanted, index),
    ensures
        first_index(len, wanted) == Some(index),
{
    let chosen = choose|index: int| is_first(len, wanted, index);
    if chosen < index {
        assert(!wanted(chosen));
    } else if index < chosen {
        assert(!wanted(index));
    }
}

/// Where `wanted` holds nowhere below `len`, `first_index` gives nothing.
pub proof fn lemma_no_index(len: int, wanted: spec_fn(int) -> bool)
    requires
        forall|index: int| 0 <= index < len ==> !#[trigger] wanted(index),
    ensures
        first_index(len, wanted) is None,
{
}

/// What `first_index` gives is the first index at which `wanted` holds, and
/// it gives nothing only where `wanted` holds nowhere below `len`.
pub proof fn lemma_first_index_found(len: int, wanted: spec_fn(int) -> bool)
    ensures
        match first_index(len, wanted) {
            Some(index) => is_first(len, wanted, index),
            None => forall|index: int| 0 <= index < len ==> !#[trigger] wanted(index),
        },
{
    if first_index(len, wanted) is None {
        assert forall|index: int| 0 <= index < len implies !#[trigger] wanted(index) by {
            if wanted(index) {
                lemma_some_first(len, wanted, index);
            }
        }
    }
}

/// Where `wanted` holds at some index below `len`, it holds at a first one.
proof fn lemma_some_first(len: int, wanted: spec_fn(int) -> bool, index: int)
    requires
        0 <= index < len,
        wanted(index),
    ensures
        exists|first: int| is_first(len, wanted, first),
    decreases index,
{
    if exists|earlier: int| 0 <= earlier < index && #[trigger] wanted(earlier) {
        let earlier = choose|earlier: int| 0 <= earlier < index && #[trigger] wanted(earlier);
        lemma_some_first(len, wanted, earlier);
    } else {
        assert(is_first(len, wanted, index));
    }
}

/// Bounds-checked access to the cells of a matrix: a position outside the
/// matrix yields `None`, never a fault.
pub trait MatrixHelper {
    type Value;

    /// The matrix as a sequence of rows.
    spec fn rows(&self) -> Seq<Seq<Self::Value>>;

    /// The cell at (`row`, `col`).
    fn cell(&self, row: i32, col: i32) -> (found: Option<&Self::Value>)
        ensures
            finds(found, cell_of(self.rows(), row as int, col as int)),
    ;

    /// The cell `delta` = (rows, columns) away from (`row_ind`, `col_ind`).
    fn cell_relative(&self, row_ind: i32, col_ind: i32, delta: (i32, i32)) -> (found: Option<
        &Self::Value,
    >)
        ensures
            finds(found, cell_of(self.rows(), row_ind + delta.0, col_ind + delta.1)),
    ;

    /// The cell `delta` = (rows, columns) away from a position given by indices.
    fn neighbor(&self, row: usize, col: usize, delta: (i32, i32)) -> (found: Option<&Self::Value>)
        ensures
            finds(found, cell_of(self.rows(), row + delta.0, col + delta.1)),
    ;
}

/// The cell at (`row`, `col`), if the matrix has one there.
fn lookup<T>(matrix: &Vec<Vec<T>>, row: i128, col: i128) -> (found: Option<&T>)
    ensures
        finds(found, cell_of(rows_of(matrix@), row as int, col as int)),
{
    if row < 0 || col < 0 || row >= matrix.len() as i128 {
        return None;
    }
    let line = &matrix[row as usize];
    if col >= line.len() as i128 {
        None
    } else {
        Some(&line[col as usize])
    }
}

impl<T> MatrixHelper for Vec<Vec<T>> {
    type Value = T;

    open spec fn rows(&self) -> Seq<Seq<T>> {
        rows_of(self@)
    }

    fn cell(&self, row: i32, col: i32) -> (found: Option<&T>) {
        lookup(self, row as i128, col as i128)
    }

    fn cell_relative(&self, row_ind: i32, col_ind: i32, delta: (i32, i32)) -> (found: Option<&T>) {
        lookup(self, row_ind as i128 + delta.0 as i128, col_ind as i128 + delta.1 as i128)
    }

    fn neighbor(&self, row: usize, col: usize, delta: (i32, i32)) -> (found: Option<&T>) {
        lookup(self, row as i128 + delta.0 as i128, col as i128 + delta.1 as i128)
    }
}

} // verus!
