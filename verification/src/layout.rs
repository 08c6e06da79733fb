//! Where each entry of the palette stands in the grid.

use vstd::prelude::*;

verus! {

/// The number of columns of the grid.
pub const COLUMNS: usize = 3;

/// A cell of the grid: column and row, both counted from zero.
#[derive(Clone, Copy, Debug, PartialEq, Eq, Structural, Hash)]
pub struct GridPosition {
    pub col: usize,
    pub row: usize,
}

/// The cell of the entry at `index`: entries fill the grid row by row.
pub open spec fn cell_of(index: int) -> GridPosition {
    GridPosition { col: (index % 3) as usize, row: (index / 3) as usize }
}

/// The cells of `entries` entries, in order.
pub open spec fn grid_of(entries: nat) -> Seq<GridPosition> {
    Seq::new(entries, |i: int| cell_of(i))
}

/// The cell of the entry at `index`.
pub fn cell(index: usize) -> (position: GridPosition)
    ensures
        position == cell_of(index as int),
        position.col == index % COLUMNS,
        position.row == index / COLUMNS,
{
    GridPosition { col: index % COLUMNS, row: index / COLUMNS }
}

/// The cells of `entries` entries, in order. The caller counts the trailing
/// "add" entry among them.
pub fn layout(entries: usize) -> (cells: Vec<GridPosition>)
    ensures
        cells@ == grid_of(entries as nat),
{
    let mut cells: Vec<GridPosition> = Vec::new();
    let mut i: usize = 0;
    while i < entries
        invariant
            i <= entries,
            cells@ == grid_of(i as nat),
        decreases entries - i,
    {
        cells.push(cell(i));
        i += 1;
        assert(cells@ =~= grid_of(i as nat));
    }
    cells
}

} // verus!
