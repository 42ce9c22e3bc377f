//! Display cells and the grid they form.

use crate::board::{Coordinate, BOARD_SIDE};
use vstd::prelude::*;
use vstd::string::*;

verus! {

/// The glyph of an untouched cell and of a plane's body.
pub open spec fn blank_glyph() -> Seq<char> {
    " "@
}

/// The glyph of a hit and of a destroyed plane's head.
pub open spec fn hit_glyph() -> Seq<char> {
    "✕"@
}

/// The glyph of a miss.
pub open spec fn miss_glyph() -> Seq<char> {
    "●"@
}

/// The three glyphs differ from one another, and each is a single character.
pub proof fn lemma_glyphs_distinct()
    ensures
        blank_glyph() != hit_glyph(),
        blank_glyph() != miss_glyph(),
        hit_glyph() != miss_glyph(),
        blank_glyph().len() == 1,
        hit_glyph().len() == 1,
        miss_glyph().len() == 1,
{
    reveal_strlit(" ");
    reveal_strlit("✕");
    reveal_strlit("●");
    assert(blank_glyph()[0] == ' ');
    assert(hit_glyph()[0] == '✕');
    assert(miss_glyph()[0] == '●');
}

/// What one position of the board shows: a style tag and a glyph.
#[derive(Clone, Debug, PartialEq, Eq)]
pub struct DisplayCell {
    pub style_tag: String,
    pub glyph: String,
}

/// The mathematical value of a [`DisplayCell`].
pub ghost struct CellModel {
    pub style_tag: Seq<char>,
    pub glyph: Seq<char>,
}

/// The cell of a position that nothing has touched: no tag, a blank glyph.
pub open spec fn default_cell() -> CellModel {
    CellModel { style_tag: Seq::empty(), glyph: blank_glyph() }
}

impl View for DisplayCell {
    type V = CellModel;

    open spec fn view(&self) -> CellModel {
        CellModel { style_tag: self.style_tag@, glyph: self.glyph@ }
    }
}

impl DisplayCell {
    /// The untouched cell.
    pub fn blank() -> (cell: DisplayCell)
        ensures
            cell@ == default_cell(),
    {
        DisplayCell { style_tag: String::new(), glyph: String::from_str(" ") }
    }
}

/// The mathematical value of a grid: its rows, each a sequence of cell values.
pub open spec fn grid_model(rows: Seq<Vec<DisplayCell>>) -> Seq<Seq<CellModel>> {
    Seq::new(rows.len(), |r: int| Seq::new(rows[r]@.len(), |c: int| rows[r]@[c]@))
}

/// `r` and `c` are a row and a column of the board.
pub open spec fn on_board(r: int, c: int) -> bool {
    0 <= r < BOARD_SIDE && 0 <= c < BOARD_SIDE
}

/// The position at row `r` and column `c`.
pub open spec fn position(r: int, c: int) -> Coordinate {
    Coordinate { row: r as usize, col: c as usize }
}

/// The rows are ten, of ten cells each.
pub open spec fn is_board_sized(rows: Seq<Vec<DisplayCell>>) -> bool {
    &&& rows.len() == BOARD_SIDE
    &&& forall|r: int| 0 <= r < BOARD_SIDE ==> (#[trigger] rows[r])@.len() == BOARD_SIDE
}

/// A fresh grid in which every cell is the untouched cell.
pub fn blank_grid() -> (grid: Vec<Vec<DisplayCell>>)
    ensures
        is_board_sized(grid@),
        forall|r: int, c: int| on_board(r, c) ==> (#[trigger] grid@[r]@[c])@ == default_cell(),
{
    let mut grid: Vec<Vec<DisplayCell>> = Vec::with_capacity(BOARD_SIDE);
    for r in 0..BOARD_SIDE
        invariant
            grid@.len() == r,
            forall|i: int| 0 <= i < r ==> (#[trigger] grid@[i])@.len() == BOARD_SIDE,
            forall|i: int, j: int|
                0 <= i < r && 0 <= j < BOARD_SIDE ==> (#[trigger] grid@[i]@[j])@ == default_cell(),
    {
        let mut row: Vec<DisplayCell> = Vec::new();
        for c in 0..BOARD_SIDE
            invariant
                row@.len() == c,
                forall|j: int| 0 <= j < c ==> (#[trigger] row@[j])@ == default_cell(),
        {
            row.push(DisplayCell::blank());
        }
        grid.push(row);
    }
    grid
}

} // verus!
