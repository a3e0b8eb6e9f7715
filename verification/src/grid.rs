//! The grid of a tile: its cells, how they are numbered, and how turning and
//! mirroring move them.

use vstd::prelude::*;
use crate::color::Color;

verus! {

/// Side length of a tile, in cells.
pub const CANVAS_SIZE: usize = 8;

/// Number of cells of a tile.
pub const CANVAS_CELLS: usize = CANVAS_SIZE * CANVAS_SIZE;

/// A cell of a canvas. `row` counts the lines of the tile from the top and
/// `col` the columns from the left; both start at zero.
#[derive(Clone, Copy, Debug, PartialEq, Eq, Structural)]
pub struct CanvasPos {
    pub row: usize,
    pub col: usize,
}

impl CanvasPos {
    /// The position lies on the canvas.
    pub open spec fn in_bounds(&self) -> bool {
        self.row < CANVAS_SIZE && self.col < CANVAS_SIZE
    }

    /// Where the cell lies in the flat cell sequence of a canvas.
    pub open spec fn index(&self) -> int {
        cell_index(self.row as int, self.col as int)
    }

    /// The position `(row, col)` if it lies on the canvas.
    pub fn new(row: usize, col: usize) -> (pos: Option<CanvasPos>)
        ensures
            pos == if row < CANVAS_SIZE && col < CANVAS_SIZE {
                Some(CanvasPos { row, col })
            } else {
                None
            },
    {
        if row >= CANVAS_SIZE || col >= CANVAS_SIZE {
            return None;
        }
        Some(CanvasPos { row, col })
    }
}

/// Where the cell `(row, col)` lies in the flat cell sequence of a canvas.
pub open spec fn cell_index(row: int, col: int) -> int {
    row * CANVAS_SIZE + col
}

/// The row of the cell that lies at `index` in the flat cell sequence.
pub open spec fn row_of(index: int) -> int {
    index / (CANVAS_SIZE as int)
}

/// The column of the cell that lies at `index` in the flat cell sequence.
pub open spec fn col_of(index: int) -> int {
    index % (CANVAS_SIZE as int)
}

/// The row or column that mirrors `line`: the first becomes the last.
pub open spec fn mirrored(line: int) -> int {
    CANVAS_SIZE - 1 - line
}

/// A cell sequence of the right length for a canvas.
pub open spec fn is_grid(cells: Seq<Color>) -> bool {
    cells.len() == CANVAS_CELLS
}

/// The cells of a blank canvas: every one black.
pub open spec fn blank_cells() -> Seq<Color> {
    Seq::new(CANVAS_CELLS as nat, |i: int| Color::black())
}

/// The cells after a quarter turn clockwise: at `(row, col)` stands what
/// stood at `(side - 1 - col, row)`, so the first column, read from the
/// bottom up, becomes the first line.
pub open spec fn rotated_cells(cells: Seq<Color>) -> Seq<Color> {
    Seq::new(CANVAS_CELLS as nat, |i: int| cells[cell_index(mirrored(col_of(i)), row_of(i))])
}

/// The cells mirrored left to right: at `(row, col)` stands what stood at
/// `(row, side - 1 - col)`, so every line is reversed.
pub open spec fn flipped_horizontal_cells(cells: Seq<Color>) -> Seq<Color> {
    Seq::new(CANVAS_CELLS as nat, |i: int| cells[cell_index(row_of(i), mirrored(col_of(i)))])
}

/// The cells mirrored top to bottom: at `(row, col)` stands what stood at
/// `(side - 1 - row, col)`, so the lines come in reverse order.
pub open spec fn flipped_vertical_cells(cells: Seq<Color>) -> Seq<Color> {
    Seq::new(CANVAS_CELLS as nat, |i: int| cells[cell_index(mirrored(row_of(i)), col_of(i))])
}

/// The cells of a copy placed on the map: turned a quarter if `rotated`, then
/// mirrored left to right if `flipped_horizontal`, then top to bottom if
/// `flipped_vertical`.
pub open spec fn variant_cells(
    cells: Seq<Color>,
    rotated: bool,
    flipped_horizontal: bool,
    flipped_vertical: bool,
) -> Seq<Color> {
    let turned = if rotated {
        rotated_cells(cells)
    } else {
        cells
    };
    let mirrored = if flipped_horizontal {
        flipped_horizontal_cells(turned)
    } else {
        turned
    };
    if flipped_vertical {
        flipped_vertical_cells(mirrored)
    } else {
        mirrored
    }
}

/// Where the cells go: a quarter turn takes what stood at `(row, col)` to
/// `(col, side - 1 - row)`, mirroring left to right takes it to
/// `(row, side - 1 - col)`, and mirroring top to bottom to
/// `(side - 1 - row, col)`. Every cell goes somewhere, and no two to the
/// same place.
pub proof fn lemma_where_cells_go(cells: Seq<Color>, row: int, col: int)
    requires
        is_grid(cells),
        0 <= row < CANVAS_SIZE,
        0 <= col < CANVAS_SIZE,
    ensures
        rotated_cells(cells)[cell_index(col, mirrored(row))] == cells[cell_index(row, col)],
        flipped_horizontal_cells(cells)[cell_index(row, mirrored(col))] == cells[cell_index(
            row,
            col,
        )],
        flipped_vertical_cells(cells)[cell_index(mirrored(row), col)] == cells[cell_index(
            row,
            col,
        )],
{
    let turned = cell_index(col, mirrored(row));
    assert(row_of(turned) == col && col_of(turned) == mirrored(row));
    let across = cell_index(row, mirrored(col));
    assert(row_of(across) == row && col_of(across) == mirrored(col));
    let down = cell_index(mirrored(row), col);
    assert(row_of(down) == mirrored(row) && col_of(down) == col);
}

/// Four quarter turns bring every cell back to where it stood.
pub proof fn lemma_rotate_four_times(cells: Seq<Color>)
    requires
        is_grid(cells),
    ensures
        rotated_cells(rotated_cells(rotated_cells(rotated_cells(cells)))) == cells,
{
    let once = rotated_cells(cells);
    let twice = rotated_cells(once);
    let thrice = rotated_cells(twice);
    let full = rotated_cells(thrice);
    assert forall|i: int| 0 <= i < CANVAS_CELLS implies full[i] == cells[i] by {
        let a = cell_index(mirrored(col_of(i)), row_of(i));
        let b = cell_index(mirrored(col_of(a)), row_of(a));
        let c = cell_index(mirrored(col_of(b)), row_of(b));
        assert(full[i] == thrice[a]);
        assert(thrice[a] == twice[b]);
        assert(twice[b] == once[c]);
        assert(once[c] == cells[cell_index(mirrored(col_of(c)), row_of(c))]);
    }
    assert(full =~= cells);
}

/// Mirroring twice left to right changes nothing.
pub proof fn lemma_flip_horizontal_twice(cells: Seq<Color>)
    requires
        is_grid(cells),
    ensures
        flipped_horizontal_cells(flipped_horizontal_cells(cells)) == cells,
{
    let once = flipped_horizontal_cells(cells);
    let twice = flipped_horizontal_cells(once);
    assert forall|i: int| 0 <= i < CANVAS_CELLS implies twice[i] == cells[i] by {
        let a = cell_index(row_of(i), mirrored(col_of(i)));
        assert(twice[i] == once[a]);
        assert(once[a] == cells[cell_index(row_of(a), mirrored(col_of(a)))]);
    }
    assert(twice =~= cells);
}

/// Mirroring twice top to bottom changes nothing.
pub proof fn lemma_flip_vertical_twice(cells: Seq<Color>)
    requires
        is_grid(cells),
    ensures
        flipped_vertical_cells(flipped_vertical_cells(cells)) == cells,
{
    let once = flipped_vertical_cells(cells);
    let twice = flipped_vertical_cells(once);
    assert forall|i: int| 0 <= i < CANVAS_CELLS implies twice[i] == cells[i] by {
        let a = cell_index(mirrored(row_of(i)), col_of(i));
        assert(twice[i] == once[a]);
        assert(once[a] == cells[cell_index(mirrored(row_of(a)), col_of(a))]);
    }
    assert(twice =~= cells);
}

/// Turning and mirroring keep the number of cells.
pub proof fn lemma_transforms_keep_grid(cells: Seq<Color>)
    ensures
        is_grid(rotated_cells(cells)),
        is_grid(flipped_horizontal_cells(cells)),
        is_grid(flipped_vertical_cells(cells)),
        is_grid(blank_cells()),
{
}

/// A copy placed on the map has all its cells.
pub proof fn lemma_variant_keeps_grid(
    cells: Seq<Color>,
    rotated: bool,
    flipped_horizontal: bool,
    flipped_vertical: bool,
)
    requires
        is_grid(cells),
    ensures
        is_grid(variant_cells(cells, rotated, flipped_horizontal, flipped_vertical)),
{
}

} // verus!
