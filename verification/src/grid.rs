//! The dense arrays of `ndarray` that hold the library's data, and the few
//! calls that the library makes on them.
//!
//! Nothing in this file is proved. Each function states what the `ndarray`
//! call in its body does, and the rest of the library is proved from these
//! statements.

use vstd::prelude::*;

verus! {

/// A two-dimensional array of `ndarray` that owns its cells, each a binary64
/// pattern. Verus does not read the field: the array type is bounded by a
/// trait of `ndarray`, with which Verus cannot take its declaration.
#[verifier::external_body]
#[derive(Debug, PartialEq)]
pub struct Grid {
    inner: ndarray::Array2<u64>,
}

/// A one-dimensional array of `ndarray` that owns its cells, each a binary64
/// pattern. Verus does not read the field, as with `Grid`.
#[verifier::external_body]
#[derive(Debug, PartialEq)]
pub struct Lane {
    inner: ndarray::Array1<u64>,
}

/// The cells of a two-dimensional array, row by row.
pub uninterp spec fn grid_cells(g: Grid) -> Seq<Seq<u64>>;

/// The cells of a one-dimensional array, in order.
pub uninterp spec fn lane_cells(l: Lane) -> Seq<u64>;

/// `ndarray::ArrayBase::from_elem` with a two-dimensional shape: an array of
/// `rows` rows and `cols` columns in which every cell holds `value`. The call
/// panics where the number of cells overflows `isize`, and the vector it
/// allocates panics where their bytes do, eight a cell.
#[verifier::external_body]
pub(crate) fn grid_filled(rows: usize, cols: usize, value: u64) -> (g: Grid)
    requires
        1 <= rows,
        1 <= cols,
        rows * cols * 8 <= isize::MAX,
    ensures
        grid_cells(g).len() == rows,
        forall|i: int| 0 <= i < rows ==> (#[trigger] grid_cells(g)[i]).len() == cols,
        forall|i: int, j: int| 0 <= i < rows && 0 <= j < cols ==> (#[trigger] grid_cells(g)[i][j]) == value,
{
    Grid { inner: ndarray::Array2::from_elem((rows, cols), value) }
}

/// `ndarray::LayoutRef::dim`, which an array has by dereferencing, on a
/// two-dimensional array: the number of rows and the number of columns,
/// which is the length of every row.
#[verifier::external_body]
pub(crate) fn grid_dim(g: &Grid) -> (d: (usize, usize))
    ensures
        d.0 == grid_cells(*g).len(),
        forall|i: int| 0 <= i < grid_cells(*g).len() ==> (#[trigger] grid_cells(*g)[i]).len() == d.1,
{
    g.inner.dim()
}

/// The `Index` of `ndarray::ArrayBase` with `[row, column]` on a
/// two-dimensional array: the cell there. It panics outside the array.
#[verifier::external_body]
pub(crate) fn grid_get(g: &Grid, i: usize, j: usize) -> (value: u64)
    requires
        i < grid_cells(*g).len(),
        j < grid_cells(*g)[i as int].len(),
    ensures
        value == grid_cells(*g)[i as int][j as int],
{
    g.inner[[i, j]]
}

/// An assignment through the `IndexMut` of `ndarray::ArrayBase` with
/// `[row, column]` on a two-dimensional array: the cell there holds `value`,
/// and no other cell changes. It panics outside the array.
#[verifier::external_body]
pub(crate) fn grid_set(g: &mut Grid, i: usize, j: usize, value: u64)
    requires
        i < grid_cells(*old(g)).len(),
        j < grid_cells(*old(g))[i as int].len(),
    ensures
        grid_cells(*final(g)) == grid_cells(*old(g)).update(
            i as int,
            grid_cells(*old(g))[i as int].update(j as int, value),
        ),
{
    g.inner[[i, j]] = value;
}

/// `ndarray::ArrayBase::from_elem` with a one-dimensional shape: an array of
/// `len` cells that all hold `value`. The call panics where `len` overflows
/// `isize`, and the vector it allocates panics where the bytes do, eight a
/// cell.
#[verifier::external_body]
pub(crate) fn lane_filled(len: usize, value: u64) -> (l: Lane)
    requires
        len * 8 <= isize::MAX,
    ensures
        lane_cells(l).len() == len,
        forall|i: int| 0 <= i < len ==> (#[trigger] lane_cells(l)[i]) == value,
{
    Lane { inner: ndarray::Array1::from_elem(len, value) }
}

/// `ndarray::LayoutRef::len`, which an array has by dereferencing, on a
/// one-dimensional array: the number of cells.
#[verifier::external_body]
pub(crate) fn lane_len(l: &Lane) -> (len: usize)
    ensures
        len == lane_cells(*l).len(),
{
    l.inner.len()
}

/// The `Index` of `ndarray::ArrayBase` with a position on a one-dimensional
/// array: the cell there. It panics outside the array.
#[verifier::external_body]
pub(crate) fn lane_get(l: &Lane, i: usize) -> (value: u64)
    requires
        i < lane_cells(*l).len(),
    ensures
        value == lane_cells(*l)[i as int],
{
    l.inner[i]
}

/// An assignment through the `IndexMut` of `ndarray::ArrayBase` with a
/// position on a one-dimensional array: the cell there holds `value`, and no
/// other cell changes. It panics outside the array.
#[verifier::external_body]
pub(crate) fn lane_set(l: &mut Lane, i: usize, value: u64)
    requires
        i < lane_cells(*old(l)).len(),
    ensures
        lane_cells(*final(l)) == lane_cells(*old(l)).update(i as int, value),
{
    l.inner[i] = value;
}

} // verus!
