//! Square grid storage backed by an `ndarray` two-dimensional array.

use vstd::prelude::*;
use crate::state::{initial_cell, Cell};
use ndarray::Array2;

verus! {

/// A two-dimensional array of cells, kept opaque; its contents are read and
/// written only through the functions below.
#[verifier::external_body]
#[derive(Debug)]
pub struct CellGrid {
    cells: Array2<Cell>,
}

/// What a cell grid holds, row by row.
pub uninterp spec fn grid_of(g: CellGrid) -> Seq<Seq<Cell>>;

/// The checkerboard that a fresh board starts from.
pub open spec fn checkerboard(size: nat) -> Seq<Seq<Cell>> {
    Seq::new(size, |r: int| Seq::new(size, |c: int| crate::state::initial_cell_spec(r, c)))
}

/// Relies on `ndarray::Array2::from_shape_fn`: with shape `(size, size)` the
/// element at `[row, col]` is what the closure returns for `(row, col)`.
#[verifier::external_body]
pub(crate) fn grid_new(size: usize) -> (g: CellGrid)
    requires
        size <= 16,
    ensures
        grid_of(g) == checkerboard(size as nat),
{
    CellGrid { cells: Array2::from_shape_fn((size, size), |(row, col)| initial_cell(row, col)) }
}

/// Relies on `Index<[usize; 2]>` of `ndarray::ArrayBase`: reads the element
/// at row `row`, column `col`.
#[verifier::external_body]
pub(crate) fn grid_get(g: &CellGrid, row: usize, col: usize) -> (c: Cell)
    requires
        row < grid_of(*g).len(),
        col < grid_of(*g)[row as int].len(),
    ensures
        c == grid_of(*g)[row as int][col as int],
{
    g.cells[[row, col]]
}

/// Relies on `IndexMut<[usize; 2]>` of `ndarray::ArrayBase`: overwrites the
/// element at row `row`, column `col` and nothing else.
#[verifier::external_body]
pub(crate) fn grid_set(g: &mut CellGrid, row: usize, col: usize, cell: Cell)
    requires
        row < grid_of(*old(g)).len(),
        col < grid_of(*old(g))[row as int].len(),
    ensures
        grid_of(*final(g)) == grid_of(*old(g)).update(
            row as int,
            grid_of(*old(g))[row as int].update(col as int, cell),
        ),
{
    g.cells[[row, col]] = cell;
}

/// Relies on `Clone` of `ndarray::ArrayBase`: an element-wise copy of the array.
#[verifier::external_body]
pub(crate) fn grid_clone(g: &CellGrid) -> (r: CellGrid)
    ensures
        grid_of(r) == grid_of(*g),
{
    CellGrid { cells: g.cells.clone() }
}

} // verus!
