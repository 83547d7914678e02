use vstd::prelude::*;
use crate::tiles::Tile;
use ndarray::Array2;

verus! {

/// A two-dimensional array of tiles, held in an `ndarray::Array2`.
/// Verus sees only the names below: its cells in row-major order and its
/// shape.
#[verifier::external_body]
pub struct TileGrid {
    array: Array2<Tile>,
}

/// The cells of a tile grid, row after row.
pub uninterp spec fn tile_grid_cells(grid: TileGrid) -> Seq<Tile>;

/// The number of rows and of columns of a tile grid.
pub uninterp spec fn tile_grid_shape(grid: TileGrid) -> (nat, nat);

/// Calls `Array2::from_shape_vec` with the row-major shape `(rows, cols)`.
/// Claims, as ndarray's source shows for the default (row-major) layout: the
/// call fails when `rows * cols` differs from the number of cells, and
/// succeeds when they agree and the axis lengths and their product are at most
/// `isize::MAX`; on success the grid has that shape and holds `cells` in
/// row-major order.
#[verifier::external_body]
pub(crate) fn tile_grid_from_cells(rows: usize, cols: usize, cells: Vec<Tile>) -> (result: Option<TileGrid>)
    ensures
        result is Some ==> rows * cols == cells@.len(),
        (rows * cols == cells@.len() && rows <= isize::MAX && cols <= isize::MAX && rows * cols
            <= isize::MAX) ==> result is Some,
        result matches Some(grid) ==> tile_grid_cells(grid) == cells@ && tile_grid_shape(grid) == (
        rows as nat, cols as nat),
{
    match Array2::from_shape_vec((rows, cols), cells) {
        Ok(array) => Some(TileGrid { array }),
        Err(_) => None,
    }
}

/// Calls `Array2::get` with the index `(y, x)`. Claims, as ndarray documents:
/// `None` when the index is outside the grid, otherwise the cell in row `y`
/// and column `x`, which is cell `y * cols + x` in row-major order.
#[verifier::external_body]
pub(crate) fn tile_grid_get(grid: &TileGrid, y: usize, x: usize) -> (tile: Option<Tile>)
    ensures
        tile is Some <==> (y < tile_grid_shape(*grid).0 && x < tile_grid_shape(*grid).1),
        tile is Some ==> tile == Some(tile_grid_cells(*grid)[y * tile_grid_shape(*grid).1 + x]),
{
    grid.array.get((y, x)).copied()
}

/// Calls `Array2::dim`. Claims, as ndarray documents, the number of rows and
/// of columns; and, as every ndarray array keeps it, that each axis length and
/// their product are at most `isize::MAX`.
#[verifier::external_body]
pub(crate) fn tile_grid_dims(grid: &TileGrid) -> (dims: (usize, usize))
    ensures
        dims.0 as nat == tile_grid_shape(*grid).0,
        dims.1 as nat == tile_grid_shape(*grid).1,
        dims.0 <= isize::MAX,
        dims.1 <= isize::MAX,
        dims.0 * dims.1 <= isize::MAX,
{
    grid.array.dim()
}

} // verus!
