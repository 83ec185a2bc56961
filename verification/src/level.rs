//! From a decoded tile list to the grid cells that hold an obstacle.

use vstd::prelude::*;
use crate::tiles::MapError;

verus! {

/// A cell of the tile grid, counted from the top-left corner.
#[derive(Clone, Copy, Debug, PartialEq, Eq, Structural)]
pub struct Cell {
    pub col: usize,
    pub row: usize,
}

/// A level as the simulation needs it: the size of its grid and the cells
/// that are solid.
#[derive(Clone, Debug, PartialEq, Eq)]
pub struct Level {
    /// Tiles per row.
    pub columns: usize,
    /// Number of rows.
    pub rows: usize,
    /// The solid cells, row by row and left to right within a row.
    pub solids: Vec<Cell>,
}

/// The mathematical content of a [`Level`].
pub ghost struct LevelModel {
    pub columns: nat,
    pub rows: nat,
    pub solids: Seq<Cell>,
}

impl LevelModel {
    /// The grid has a width, and every solid cell lies on the grid.
    pub open spec fn well_formed(self) -> bool {
        &&& self.columns > 0
        &&& forall|k: int|
            0 <= k < self.solids.len() ==> (#[trigger] self.solids[k]).col < self.columns
                && self.solids[k].row < self.rows
    }
}

impl View for Level {
    type V = LevelModel;

    open spec fn view(&self) -> LevelModel {
        LevelModel {
            columns: self.columns as nat,
            rows: self.rows as nat,
            solids: self.solids@,
        }
    }
}

/// The cell of the tile at index `i` of a row-major grid with `columns`
/// tiles per row.
pub open spec fn cell_of(i: int, columns: int) -> Cell {
    Cell { col: (i % columns) as usize, row: (i / columns) as usize }
}

/// The cells of the non-zero tiles among `tiles`, in the order of the tiles.
pub open spec fn solid_cells(tiles: Seq<u8>, columns: int) -> Seq<Cell>
    decreases tiles.len(),
{
    if tiles.len() == 0 {
        Seq::empty()
    } else if tiles.last() != 0 {
        solid_cells(tiles.drop_last(), columns).push(cell_of(tiles.len() - 1, columns))
    } else {
        solid_cells(tiles.drop_last(), columns)
    }
}

/// What a tile list lays out to. The list ends in the row width; the tiles
/// before it must fill whole rows.
pub open spec fn layout(list: Seq<u8>) -> Result<LevelModel, MapError> {
    if list.len() == 0 {
        Err(MapError::NoWidth)
    } else if list.last() == 0 {
        Err(MapError::ZeroWidth)
    } else if (list.len() - 1) % (list.last() as int) != 0 {
        Err(MapError::NotRectangular)
    } else {
        Ok(
            LevelModel {
                columns: list.last() as nat,
                rows: ((list.len() - 1) / (list.last() as int)) as nat,
                solids: solid_cells(list.drop_last(), list.last() as int),
            },
        )
    }
}

/// A cell is solid exactly where it is the cell of a tile with a non-zero
/// code: every such tile gives an obstacle, and nothing else does.
pub proof fn lemma_solid_iff_nonzero(tiles: Seq<u8>, columns: int, cell: Cell)
    ensures
        solid_cells(tiles, columns).contains(cell) <==> exists|i: int|
            0 <= i < tiles.len() && tiles[i] != 0 && cell == #[trigger] cell_of(i, columns),
    decreases tiles.len(),
{
    if tiles.len() > 0 {
        let front = tiles.drop_last();
        let last = tiles.len() - 1;
        lemma_solid_iff_nonzero(front, columns, cell);
        if solid_cells(tiles, columns).contains(cell) {
            let k = choose|k: int|
                0 <= k < solid_cells(tiles, columns).len() && solid_cells(tiles, columns)[k]
                    == cell;
            if k < solid_cells(front, columns).len() {
                assert(solid_cells(front, columns)[k] == cell);
                assert(solid_cells(front, columns).contains(cell));
                let i = choose|i: int|
                    0 <= i < front.len() && front[i] != 0 && cell == #[trigger] cell_of(
                        i,
                        columns,
                    );
                assert(tiles[i] != 0 && cell == cell_of(i, columns));
            } else {
                assert(tiles[last] != 0 && cell == cell_of(last, columns));
            }
        }
        if exists|i: int|
            0 <= i < tiles.len() && tiles[i] != 0 && cell == #[trigger] cell_of(i, columns) {
            let i = choose|i: int|
                0 <= i < tiles.len() && tiles[i] != 0 && cell == #[trigger] cell_of(i, columns);
            if i < last {
                assert(front[i] != 0 && cell == cell_of(i, columns));
                let k = choose|k: int|
                    0 <= k < solid_cells(front, columns).len() && solid_cells(front, columns)[k]
                        == cell;
                assert(solid_cells(tiles, columns)[k] == cell);
            } else {
                let k = solid_cells(front, columns).len() as int;
                assert(solid_cells(tiles, columns)[k] == cell);
            }
        }
    }
}

/// Two tiles of a grid never share a cell, as long as the grid has a width
/// and its indices fit the machine.
pub proof fn lemma_cell_of_injective(i: int, j: int, columns: int)
    requires
        columns > 0,
        0 <= i <= usize::MAX,
        0 <= j <= usize::MAX,
        cell_of(i, columns) == cell_of(j, columns),
    ensures
        i == j,
{
    vstd::arithmetic::div_mod::lemma_fundamental_div_mod(i, columns);
    vstd::arithmetic::div_mod::lemma_fundamental_div_mod(j, columns);
    assert(0 <= i % columns <= i && 0 <= i / columns <= i) by (nonlinear_arith)
        requires
            columns > 0,
            0 <= i,
    ;
    assert(0 <= j % columns <= j && 0 <= j / columns <= j) by (nonlinear_arith)
        requires
            columns > 0,
            0 <= j,
    ;
}

/// No cell is listed twice, and there are as many solid cells as tiles with
/// a non-zero code.
pub proof fn lemma_solid_cells_count(tiles: Seq<u8>, columns: int)
    requires
        columns > 0,
        tiles.len() <= usize::MAX,
    ensures
        solid_cells(tiles, columns).no_duplicates(),
        solid_cells(tiles, columns).len() == tiles.filter(|code: u8| code != 0).len(),
    decreases tiles.len(),
{
    reveal(Seq::filter);
    if tiles.len() > 0 {
        let front = tiles.drop_last();
        let last = tiles.len() - 1;
        let cells = solid_cells(tiles, columns);
        lemma_solid_cells_count(front, columns);
        if tiles.last() != 0 {
            let added = cell_of(last, columns);
            lemma_solid_iff_nonzero(front, columns, added);
            if solid_cells(front, columns).contains(added) {
                let i = choose|i: int|
                    0 <= i < front.len() && front[i] != 0 && added == #[trigger] cell_of(
                        i,
                        columns,
                    );
                lemma_cell_of_injective(i, last, columns);
            }
            assert forall|a: int, b: int| 0 <= a < cells.len() && 0 <= b < cells.len() && a != b
                implies cells[a] != cells[b] by {
                if a == cells.len() - 1 {
                    assert(solid_cells(front, columns)[b] == cells[b]);
                } else if b == cells.len() - 1 {
                    assert(solid_cells(front, columns)[a] == cells[a]);
                } else {
                    assert(solid_cells(front, columns)[a] == cells[a]);
                    assert(solid_cells(front, columns)[b] == cells[b]);
                }
            }
        }
    }
}

/// A tile list that lays out at all lays out to a well-formed level.
pub proof fn lemma_layout_well_formed(list: Seq<u8>)
    requires
        list.len() <= usize::MAX,
    ensures
        layout(list) matches Ok(level) ==> level.well_formed(),
{
    if let Ok(level) = layout(list) {
        let tiles = list.drop_last();
        let columns = list.last() as int;
        assert forall|k: int| 0 <= k < level.solids.len() implies (#[trigger] level.solids[k]).col
            < level.columns && level.solids[k].row < level.rows by {
            let cell = level.solids[k];
            assert(level.solids.contains(cell));
            lemma_solid_iff_nonzero(tiles, columns, cell);
            let i = choose|i: int|
                0 <= i < tiles.len() && tiles[i] != 0 && cell == #[trigger] cell_of(i, columns);
            let count = tiles.len() as int;
            assert(0 <= i % columns < columns && 0 <= i / columns < count / columns) by (
                nonlinear_arith)
                requires
                    0 <= i < count,
                    columns > 0,
                    count % columns == 0,
            ;
        }
    }
}

/// Lays out a decoded tile list: every tile with a non-zero code becomes a
/// solid cell, a zero leaves its cell empty.
pub fn place_tiles(list: &[u8]) -> (r: Result<Level, MapError>)
    ensures
        match r {
            Ok(level) => layout(list@) == Ok::<LevelModel, MapError>(level@),
            Err(e) => layout(list@) == Err::<LevelModel, MapError>(e),
        },
        r matches Ok(level) ==> level@.well_formed(),
{
    if list.len() == 0 {
        return Err(MapError::NoWidth);
    }
    let count: usize = list.len() - 1;
    let columns: usize = list[count] as usize;
    if columns == 0 {
        return Err(MapError::ZeroWidth);
    }
    if count % columns != 0 {
        return Err(MapError::NotRectangular);
    }
    let mut solids: Vec<Cell> = Vec::new();
    let mut i: usize = 0;
    while i < count
        invariant
            i <= count,
            count == list.len() - 1,
            columns > 0,
            solids@ == solid_cells(list@.take(i as int), columns as int),
        decreases count - i,
    {
        proof {
            let next = list@.take(i + 1);
            assert(next.drop_last() == list@.take(i as int));
            assert(next.last() == list[i as int]);
        }
        if list[i] != 0 {
            solids.push(Cell { col: i % columns, row: i / columns });
        }
        i += 1;
    }
    proof {
        assert(list@.take(count as int) == list@.drop_last());
        lemma_layout_well_formed(list@);
    }
    Ok(Level { columns, rows: count / columns, solids })
}

} // verus!
