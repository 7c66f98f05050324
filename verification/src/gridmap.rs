use vstd::prelude::*;

use crate::tiles::{TileKind, TilePos};

verus! {

/// Largest side length a terrain grid may have. Keeping both sides under this
/// bound keeps every Manhattan distance and every summed path cost well inside
/// `u32`, and `rows * cols` inside `usize`.
pub const MAX_DIM: usize = 4096;

#[verifier::external_type_specification]
#[verifier::external_body]
#[verifier::reject_recursive_types(T)]
pub struct ExGrid<T>(grid::Grid<T>);

/// The tiles a `grid::Grid` holds, cell by cell, keyed as `(row, col)`.
pub uninterp spec fn grid_tiles(g: grid::Grid<TileKind>) -> Map<(int, int), TileKind>;

/// The `(rows, cols)` size a `grid::Grid` was built with.
pub uninterp spec fn grid_size(g: grid::Grid<TileKind>) -> (nat, nat);

/// Relies on grid::Grid::init: a rows x cols grid with every cell holding the
/// given value. Both sides must be positive (the crate collapses an empty grid
/// to 0 x 0) and `rows * cols` must fit in usize (it panics otherwise).
#[verifier::external_body]
fn grid_init(rows: usize, cols: usize, kind: TileKind) -> (g: grid::Grid<TileKind>)
    requires
        rows >= 1,
        cols >= 1,
        rows * cols <= usize::MAX,
    ensures
        grid_size(g) == (rows as nat, cols as nat),
        forall|r: int, c: int|
            0 <= r < rows && 0 <= c < cols ==> grid_tiles(g)[(r, c)] == kind,
{
    grid::Grid::init(rows, cols, kind)
}

/// Relies on grid::Grid::get: Some of the cell at (row, col) inside the grid's
/// bounds, None outside them.
#[verifier::external_body]
fn grid_get(g: &grid::Grid<TileKind>, row: usize, col: usize) -> (r: Option<TileKind>)
    ensures
        row < grid_size(*g).0 && col < grid_size(*g).1 ==> r == Some(
            grid_tiles(*g)[(row as int, col as int)],
        ),
        !(row < grid_size(*g).0 && col < grid_size(*g).1) ==> r is None,
{
    g.get(row, col).copied()
}

/// Relies on grid::Grid::get_mut: overwrites the cell at (row, col); the
/// caller keeps (row, col) inside the grid's bounds.
#[verifier::external_body]
fn grid_set(g: &mut grid::Grid<TileKind>, row: usize, col: usize, kind: TileKind)
    requires
        row < grid_size(*old(g)).0,
        col < grid_size(*old(g)).1,
    ensures
        grid_size(*final(g)) == grid_size(*old(g)),
        grid_tiles(*final(g)) == grid_tiles(*old(g)).insert((row as int, col as int), kind),
{
    if let Some(cell) = g.get_mut(row, col) {
        *cell = kind;
    }
}

/// A rectangular terrain map: every cell inside the declared size holds a
/// `TileKind`, and lookups outside the size answer `None` rather than fail.
pub struct Tilemap {
    pub grid: grid::Grid<TileKind>,
    pub rows: usize,
    pub cols: usize,
}

impl Tilemap {
    pub open spec fn spec_rows(self) -> nat {
        grid_size(self.grid).0
    }

    pub open spec fn spec_cols(self) -> nat {
        grid_size(self.grid).1
    }

    /// The terrain, keyed as `(row, col)`, i.e. `(y, x)`.
    pub open spec fn cells(self) -> Map<(int, int), TileKind> {
        grid_tiles(self.grid)
    }

    /// The tile at column `x`, row `y`.
    pub open spec fn tile_at(self, x: int, y: int) -> TileKind {
        self.cells()[(y, x)]
    }

    pub open spec fn spec_in_bounds(self, x: int, y: int) -> bool {
        0 <= x < self.spec_cols() && 0 <= y < self.spec_rows()
    }

    pub open spec fn wf(self) -> bool {
        &&& self.rows == self.spec_rows()
        &&& self.cols == self.spec_cols()
        &&& 1 <= self.rows <= MAX_DIM
        &&& 1 <= self.cols <= MAX_DIM
    }

    /// A fresh map of the given size with every cell `Empty`.
    pub fn new(rows: usize, cols: usize) -> (m: Tilemap)
        requires
            1 <= rows <= MAX_DIM,
            1 <= cols <= MAX_DIM,
        ensures
            m.wf(),
            m.spec_rows() == rows,
            m.spec_cols() == cols,
            forall|x: int, y: int| m.spec_in_bounds(x, y) ==> m.tile_at(x, y) == TileKind::Empty,
    {
        assert(rows * cols <= MAX_DIM * MAX_DIM) by (nonlinear_arith)
            requires
                1 <= rows <= MAX_DIM,
                1 <= cols <= MAX_DIM,
        ;
        let grid = grid_init(rows, cols, TileKind::Empty);
        Tilemap { grid, rows, cols }
    }

    pub fn rows(&self) -> (r: usize)
        requires
            self.wf(),
        ensures
            r == self.spec_rows(),
    {
        self.rows
    }

    pub fn cols(&self) -> (r: usize)
        requires
            self.wf(),
        ensures
            r == self.spec_cols(),
    {
        self.cols
    }

    pub fn in_bounds(&self, pos: TilePos) -> (r: bool)
        requires
            self.wf(),
        ensures
            r == self.spec_in_bounds(pos.x as int, pos.y as int),
    {
        pos.x < self.cols && pos.y < self.rows
    }

    /// Bounds-checked lookup: None outside the map, never a failure.
    pub fn get(&self, pos: TilePos) -> (r: Option<TileKind>)
        requires
            self.wf(),
        ensures
            r == if self.spec_in_bounds(pos.x as int, pos.y as int) {
                Some(self.tile_at(pos.x as int, pos.y as int))
            } else {
                None::<TileKind>
            },
    {
        grid_get(&self.grid, pos.y, pos.x)
    }

    /// Overwrite one in-bounds cell.
    pub fn set(&mut self, pos: TilePos, kind: TileKind)
        requires
            old(self).wf(),
            old(self).spec_in_bounds(pos.x as int, pos.y as int),
        ensures
            final(self).wf(),
            final(self).spec_rows() == old(self).spec_rows(),
            final(self).spec_cols() == old(self).spec_cols(),
            final(self).cells() == old(self).cells().insert(
                (pos.y as int, pos.x as int),
                kind,
            ),
    {
        grid_set(&mut self.grid, pos.y, pos.x, kind);
    }
}

} // verus!
