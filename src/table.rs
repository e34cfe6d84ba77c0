//! The dynamic-programming table: an `ndarray` matrix of `u32` cells.
use ndarray::Array2;
use vstd::prelude::*;

verus! {

/// A matrix of `u32` cells, held in an `ndarray` array.
#[verifier::external_body]
#[derive(Debug)]
pub struct Table {
    m: Array2<u32>,
}

/// The cells of a two-dimensional array, row by row.
pub uninterp spec fn cells(t: Table) -> Seq<Seq<u32>>;

/// Relies on `ndarray::Array2::zeros`: an array of the given shape whose
/// cells all hold 0. It panics when the product of the non-zero lengths
/// overflows `isize`.
#[verifier::external_body]
pub(crate) fn zeros(rows: usize, cols: usize) -> (t: Table)
    requires
        rows <= isize::MAX,
        cols <= isize::MAX,
        rows * cols <= isize::MAX,
    ensures
        cells(t).len() == rows,
        forall|i: int| 0 <= i < rows ==> #[trigger] cells(t)[i] == Seq::new(cols as nat, |j: int| 0u32),
{
    Table { m: Array2::zeros((rows, cols)) }
}

/// Relies on indexing an `ndarray` array by `[i, j]`: the cell in row `i` and
/// column `j`. It panics outside the array's shape.
#[verifier::external_body]
pub(crate) fn cell(t: &Table, i: usize, j: usize) -> (r: u32)
    requires
        i < cells(*t).len(),
        j < cells(*t)[i as int].len(),
    ensures
        r == cells(*t)[i as int][j as int],
{
    t.m[[i, j]]
}

/// Relies on mutable indexing of an `ndarray` array by `[i, j]`: only the cell
/// in row `i` and column `j` changes. It panics outside the array's shape.
#[verifier::external_body]
pub(crate) fn set_cell(t: &mut Table, i: usize, j: usize, v: u32)
    requires
        i < cells(*old(t)).len(),
        j < cells(*old(t))[i as int].len(),
    ensures
        cells(*final(t)) == cells(*old(t)).update(i as int, cells(*old(t))[i as int].update(j as int, v)),
{
    t.m[[i, j]] = v;
}

} // verus!
