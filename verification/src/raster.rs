//! The four layers and the rasterizer that paints them in order.

use crate::board::{
    all_in_bounds, all_pieces_wf, occurs_before, pieces_model, BoardModel, BoardSnapshot,
    Coordinate, Piece, PieceModel, BOARD_SIDE,
};
use crate::decimal::{killed_tag, killed_tag_string, plane_tag, plane_tag_string};
use crate::grid::{
    blank_glyph, blank_grid, default_cell, grid_model, hit_glyph, is_board_sized, miss_glyph,
    on_board, position, CellModel, DisplayCell,
};
use vstd::prelude::*;
use vstd::string::*;

verus! {

/// The cell at `pos` once the live plane `p` is painted over `under`: a body tile
/// takes the plane's tag and a blank glyph, the head takes the tag and keeps its
/// glyph, any other position is left alone.
pub open spec fn live_paint(p: PieceModel, pos: Coordinate, under: CellModel) -> CellModel {
    if p.body.contains(pos) {
        CellModel { style_tag: plane_tag(p.id), glyph: blank_glyph() }
    } else if p.head == pos {
        CellModel { style_tag: plane_tag(p.id), glyph: under.glyph }
    } else {
        under
    }
}

/// The cell at `pos` once the first `n` live planes are painted, in order, over
/// `under`.
pub open spec fn live_layer(planes: Seq<PieceModel>, n: nat, pos: Coordinate, under: CellModel)
    -> CellModel
    decreases n,
{
    if n == 0 || n > planes.len() {
        under
    } else {
        live_paint(planes[n - 1], pos, live_layer(planes, (n - 1) as nat, pos, under))
    }
}

/// The cell at `pos` once the hits are marked over `under`: a hit position shows
/// the hit glyph and keeps its tag.
pub open spec fn hit_layer(hits: Seq<Coordinate>, pos: Coordinate, under: CellModel) -> CellModel {
    if hits.contains(pos) {
        CellModel { style_tag: under.style_tag, glyph: hit_glyph() }
    } else {
        under
    }
}

/// The cell at `pos` once the misses are marked over `under`: a missed position
/// shows the miss glyph and keeps its tag.
pub open spec fn miss_layer(misses: Seq<Coordinate>, pos: Coordinate, under: CellModel)
    -> CellModel {
    if misses.contains(pos) {
        CellModel { style_tag: under.style_tag, glyph: miss_glyph() }
    } else {
        under
    }
}

/// The cell at `pos` once the destroyed plane `p` is painted over `under`: a body
/// tile takes the killed tag and a blank glyph, the head takes the killed tag and
/// the hit glyph, any other position is left alone.
pub open spec fn killed_paint(p: PieceModel, pos: Coordinate, under: CellModel) -> CellModel {
    if p.body.contains(pos) {
        CellModel { style_tag: killed_tag(p.id), glyph: blank_glyph() }
    } else if p.head == pos {
        CellModel { style_tag: killed_tag(p.id), glyph: hit_glyph() }
    } else {
        under
    }
}

/// The cell at `pos` once the first `n` destroyed planes are painted, in order,
/// over `under`.
pub open spec fn killed_layer(planes: Seq<PieceModel>, n: nat, pos: Coordinate, under: CellModel)
    -> CellModel
    decreases n,
{
    if n == 0 || n > planes.len() {
        under
    } else {
        killed_paint(planes[n - 1], pos, killed_layer(planes, (n - 1) as nat, pos, under))
    }
}

/// The cell at `pos` before the destroyed planes are painted: the untouched cell
/// under the live planes, the hits and the misses, in that order.
pub open spec fn marked_cell(board: BoardModel, pos: Coordinate) -> CellModel {
    miss_layer(
        board.misses,
        pos,
        hit_layer(
            board.hits,
            pos,
            live_layer(board.planes, board.planes.len(), pos, default_cell()),
        ),
    )
}

/// The cell that the rasterizer shows at `pos`: the untouched cell under the live
/// planes, the hits, the misses and the destroyed planes, in that order.
pub open spec fn rendered_cell(board: BoardModel, pos: Coordinate) -> CellModel {
    killed_layer(board.killed_planes, board.killed_planes.len(), pos, marked_cell(board, pos))
}

/// The grid that the rasterizer produces for `board`, row by row.
pub open spec fn rendered_grid(board: BoardModel) -> Seq<Seq<CellModel>> {
    Seq::new(
        BOARD_SIDE as nat,
        |r: int|
            Seq::new(
                BOARD_SIDE as nat,
                |c: int| rendered_cell(board, position(r, c)),
            ),
    )
}

/// The rows are the rasterized board: ten rows of ten cells, each cell the
/// rendered cell of its position.
pub open spec fn shows(rows: Seq<Vec<DisplayCell>>, board: BoardModel) -> bool {
    &&& is_board_sized(rows)
    &&& forall|r: int, c: int|
        on_board(r, c) ==> (#[trigger] rows[r]@[c])@ == rendered_cell(board, position(r, c))
}

/// Replaces the style tag of the cell at `at`; nothing else changes.
pub fn write_tag(grid: &mut Vec<Vec<DisplayCell>>, at: Coordinate, tag: String)
    requires
        is_board_sized(old(grid)@),
        at.in_bounds(),
    ensures
        is_board_sized(final(grid)@),
        forall|r: int, c: int|
            on_board(r, c) ==> (#[trigger] final(grid)@[r]@[c])@ == if position(r, c) == at {
                CellModel { style_tag: tag@, glyph: old(grid)@[r]@[c]@.glyph }
            } else {
                old(grid)@[r]@[c]@
            },
{
    grid[at.row][at.col].style_tag = tag;
}

/// Replaces the glyph of the cell at `at`; nothing else changes.
pub fn write_glyph(grid: &mut Vec<Vec<DisplayCell>>, at: Coordinate, glyph: String)
    requires
        is_board_sized(old(grid)@),
        at.in_bounds(),
    ensures
        is_board_sized(final(grid)@),
        forall|r: int, c: int|
            on_board(r, c) ==> (#[trigger] final(grid)@[r]@[c])@ == if position(r, c) == at {
                CellModel { style_tag: old(grid)@[r]@[c]@.style_tag, glyph: glyph@ }
            } else {
                old(grid)@[r]@[c]@
            },
{
    grid[at.row][at.col].glyph = glyph;
}

/// One more tile is looked at: `pos` occurs among the first `j + 1` tiles when it
/// occurs among the first `j` or is the tile at `j`.
proof fn lemma_occurs_before_step(tiles: Seq<Coordinate>, j: int, pos: Coordinate)
    requires
        0 <= j < tiles.len(),
    ensures
        occurs_before(tiles, j + 1, pos) <==> (occurs_before(tiles, j, pos) || tiles[j] == pos),
{
    if occurs_before(tiles, j, pos) {
        let k = choose|k: int| 0 <= k < j && k < tiles.len() && #[trigger] tiles[k] == pos;
        assert(0 <= k < j + 1 && tiles[k] == pos);
    }
    if tiles[j] == pos {
        assert(0 <= j < j + 1 && tiles[j] == pos);
    }
}

/// Looking at all the tiles is asking whether the sequence contains `pos`.
proof fn lemma_occurs_before_all(tiles: Seq<Coordinate>, pos: Coordinate)
    ensures
        occurs_before(tiles, tiles.len() as int, pos) <==> tiles.contains(pos),
{
    if tiles.contains(pos) {
        let k = choose|k: int| 0 <= k < tiles.len() && tiles[k] == pos;
        assert(0 <= k < tiles.len() && tiles[k] == pos);
    }
}

/// Paints one live plane: its tag on the head, then a blank glyph and its tag on
/// every body tile.
pub fn paint_live_piece(grid: &mut Vec<Vec<DisplayCell>>, piece: &Piece)
    requires
        is_board_sized(old(grid)@),
        piece@.wf(),
    ensures
        is_board_sized(final(grid)@),
        forall|r: int, c: int|
            on_board(r, c) ==> (#[trigger] final(grid)@[r]@[c])@ == live_paint(
                piece@,
                position(r, c),
                old(grid)@[r]@[c]@,
            ),
{
    let ghost before = grid@;
    write_tag(grid, piece.head, plane_tag_string(piece.id));
    for j in 0..piece.body.len()
        invariant
            piece@.wf(),
            is_board_sized(grid@),
            forall|r: int, c: int|
                on_board(r, c) ==> (#[trigger] grid@[r]@[c])@ == if occurs_before(
                    piece@.body,
                    j as int,
                    position(r, c),
                ) {
                    CellModel { style_tag: plane_tag(piece@.id), glyph: blank_glyph() }
                } else if piece@.head == position(r, c) {
                    CellModel { style_tag: plane_tag(piece@.id), glyph: before[r]@[c]@.glyph }
                } else {
                    before[r]@[c]@
                },
    {
        let tile = piece.body[j];
        write_glyph(grid, tile, String::from_str(" "));
        write_tag(grid, tile, plane_tag_string(piece.id));
        proof {
            assert forall|r: int, c: int| on_board(r, c) implies (#[trigger] grid@[r]@[c])@
                == if occurs_before(piece@.body, j as int + 1, position(r, c)) {
                CellModel { style_tag: plane_tag(piece@.id), glyph: blank_glyph() }
            } else if piece@.head == position(r, c) {
                CellModel { style_tag: plane_tag(piece@.id), glyph: before[r]@[c]@.glyph }
            } else {
                before[r]@[c]@
            } by {
                lemma_occurs_before_step(piece@.body, j as int, position(r, c));
            }
        }
    }
    proof {
        assert forall|r: int, c: int| on_board(r, c) implies (#[trigger] grid@[r]@[c])@
            == live_paint(piece@, position(r, c), before[r]@[c]@) by {
            lemma_occurs_before_all(piece@.body, position(r, c));
        }
    }
}

/// Paints one destroyed plane: the hit glyph and the killed tag on the head, then
/// a blank glyph and the killed tag on every body tile.
pub fn paint_killed_piece(grid: &mut Vec<Vec<DisplayCell>>, piece: &Piece)
    requires
        is_board_sized(old(grid)@),
        piece@.wf(),
    ensures
        is_board_sized(final(grid)@),
        forall|r: int, c: int|
            on_board(r, c) ==> (#[trigger] final(grid)@[r]@[c])@ == killed_paint(
                piece@,
                position(r, c),
                old(grid)@[r]@[c]@,
            ),
{
    let ghost before = grid@;
    write_glyph(grid, piece.head, String::from_str("✕"));
    write_tag(grid, piece.head, killed_tag_string(piece.id));
    for j in 0..piece.body.len()
        invariant
            piece@.wf(),
            is_board_sized(grid@),
            forall|r: int, c: int|
                on_board(r, c) ==> (#[trigger] grid@[r]@[c])@ == if occurs_before(
                    piece@.body,
                    j as int,
                    position(r, c),
                ) {
                    CellModel { style_tag: killed_tag(piece@.id), glyph: blank_glyph() }
                } else if piece@.head == position(r, c) {
                    CellModel { style_tag: killed_tag(piece@.id), glyph: hit_glyph() }
                } else {
                    before[r]@[c]@
                },
    {
        let tile = piece.body[j];
        write_glyph(grid, tile, String::from_str(" "));
        write_tag(grid, tile, killed_tag_string(piece.id));
        proof {
            assert forall|r: int, c: int| on_board(r, c) implies (#[trigger] grid@[r]@[c])@
                == if occurs_before(piece@.body, j as int + 1, position(r, c)) {
                CellModel { style_tag: killed_tag(piece@.id), glyph: blank_glyph() }
            } else if piece@.head == position(r, c) {
                CellModel { style_tag: killed_tag(piece@.id), glyph: hit_glyph() }
            } else {
                before[r]@[c]@
            } by {
                lemma_occurs_before_step(piece@.body, j as int, position(r, c));
            }
        }
    }
    proof {
        assert forall|r: int, c: int| on_board(r, c) implies (#[trigger] grid@[r]@[c])@
            == killed_paint(piece@, position(r, c), before[r]@[c]@) by {
            lemma_occurs_before_all(piece@.body, position(r, c));
        }
    }
}

/// Writes `glyph` at every listed position and leaves every tag alone.
fn stamp_glyph(grid: &mut Vec<Vec<DisplayCell>>, tiles: &Vec<Coordinate>, glyph: &str)
    requires
        is_board_sized(old(grid)@),
        all_in_bounds(tiles@),
    ensures
        is_board_sized(final(grid)@),
        forall|r: int, c: int|
            on_board(r, c) ==> (#[trigger] final(grid)@[r]@[c])@ == if tiles@.contains(
                position(r, c),
            ) {
                CellModel { style_tag: old(grid)@[r]@[c]@.style_tag, glyph: glyph@ }
            } else {
                old(grid)@[r]@[c]@
            },
{
    let ghost before = grid@;
    for i in 0..tiles.len()
        invariant
            all_in_bounds(tiles@),
            is_board_sized(grid@),
            forall|r: int, c: int|
                on_board(r, c) ==> (#[trigger] grid@[r]@[c])@ == if occurs_before(
                    tiles@,
                    i as int,
                    position(r, c),
                ) {
                    CellModel { style_tag: before[r]@[c]@.style_tag, glyph: glyph@ }
                } else {
                    before[r]@[c]@
                },
    {
        let tile = tiles[i];
        write_glyph(grid, tile, String::from_str(glyph));
        proof {
            assert forall|r: int, c: int| on_board(r, c) implies (#[trigger] grid@[r]@[c])@
                == if occurs_before(tiles@, i as int + 1, position(r, c)) {
                CellModel { style_tag: before[r]@[c]@.style_tag, glyph: glyph@ }
            } else {
                before[r]@[c]@
            } by {
                lemma_occurs_before_step(tiles@, i as int, position(r, c));
            }
        }
    }
    proof {
        assert forall|r: int, c: int| on_board(r, c) implies (#[trigger] grid@[r]@[c])@
            == if tiles@.contains(position(r, c)) {
            CellModel { style_tag: before[r]@[c]@.style_tag, glyph: glyph@ }
        } else {
            before[r]@[c]@
        } by {
            lemma_occurs_before_all(tiles@, position(r, c));
        }
    }
}

/// Paints the live planes in the order of the list.
pub fn paint_live_pieces(grid: &mut Vec<Vec<DisplayCell>>, planes: &Vec<Piece>)
    requires
        is_board_sized(old(grid)@),
        all_pieces_wf(pieces_model(planes@)),
    ensures
        is_board_sized(final(grid)@),
        forall|r: int, c: int|
            on_board(r, c) ==> (#[trigger] final(grid)@[r]@[c])@ == live_layer(
                pieces_model(planes@),
                planes@.len(),
                position(r, c),
                old(grid)@[r]@[c]@,
            ),
{
    let ghost before = grid@;
    for i in 0..planes.len()
        invariant
            all_pieces_wf(pieces_model(planes@)),
            is_board_sized(grid@),
            forall|r: int, c: int|
                on_board(r, c) ==> (#[trigger] grid@[r]@[c])@ == live_layer(
                    pieces_model(planes@),
                    i as nat,
                    position(r, c),
                    before[r]@[c]@,
                ),
    {
        assert(pieces_model(planes@)[i as int].wf());
        paint_live_piece(grid, &planes[i]);
    }
}

/// Marks every hit with the hit glyph; no tag changes.
pub fn mark_hits(grid: &mut Vec<Vec<DisplayCell>>, hits: &Vec<Coordinate>)
    requires
        is_board_sized(old(grid)@),
        all_in_bounds(hits@),
    ensures
        is_board_sized(final(grid)@),
        forall|r: int, c: int|
            on_board(r, c) ==> (#[trigger] final(grid)@[r]@[c])@ == hit_layer(
                hits@,
                position(r, c),
                old(grid)@[r]@[c]@,
            ),
{
    stamp_glyph(grid, hits, "✕");
}

/// Marks every miss with the miss glyph; no tag changes.
pub fn mark_misses(grid: &mut Vec<Vec<DisplayCell>>, misses: &Vec<Coordinate>)
    requires
        is_board_sized(old(grid)@),
        all_in_bounds(misses@),
    ensures
        is_board_sized(final(grid)@),
        forall|r: int, c: int|
            on_board(r, c) ==> (#[trigger] final(grid)@[r]@[c])@ == miss_layer(
                misses@,
                position(r, c),
                old(grid)@[r]@[c]@,
            ),
{
    stamp_glyph(grid, misses, "●");
}

/// Paints the destroyed planes in the order of the list.
pub fn paint_killed_pieces(grid: &mut Vec<Vec<DisplayCell>>, planes: &Vec<Piece>)
    requires
        is_board_sized(old(grid)@),
        all_pieces_wf(pieces_model(planes@)),
    ensures
        is_board_sized(final(grid)@),
        forall|r: int, c: int|
            on_board(r, c) ==> (#[trigger] final(grid)@[r]@[c])@ == killed_layer(
                pieces_model(planes@),
                planes@.len(),
                position(r, c),
                old(grid)@[r]@[c]@,
            ),
{
    let ghost before = grid@;
    for i in 0..planes.len()
        invariant
            all_pieces_wf(pieces_model(planes@)),
            is_board_sized(grid@),
            forall|r: int, c: int|
                on_board(r, c) ==> (#[trigger] grid@[r]@[c])@ == killed_layer(
                    pieces_model(planes@),
                    i as nat,
                    position(r, c),
                    before[r]@[c]@,
                ),
    {
        assert(pieces_model(planes@)[i as int].wf());
        paint_killed_piece(grid, &planes[i]);
    }
}

/// Rasterizes a board snapshot: a fresh ten-by-ten grid on which the live planes,
/// the hits, the misses and the destroyed planes are painted in that order.
pub fn get_normalized_grid(board: &BoardSnapshot) -> (grid: Vec<Vec<DisplayCell>>)
    requires
        board@.wf(),
    ensures
        shows(grid@, board@),
        grid_model(grid@) == rendered_grid(board@),
{
    let mut grid = blank_grid();
    paint_live_pieces(&mut grid, &board.planes);
    mark_hits(&mut grid, &board.hits);
    mark_misses(&mut grid, &board.misses);
    paint_killed_pieces(&mut grid, &board.killed_planes);
    proof {
        assert(shows(grid@, board@));
        assert(grid_model(grid@) =~~= rendered_grid(board@));
    }
    grid
}

/// Rasterizes any board snapshot: the grid of [`get_normalized_grid`] where every
/// position that the snapshot mentions lies on the board, and nothing where one
/// does not.
pub fn rasterize(board: &BoardSnapshot) -> (result: Option<Vec<Vec<DisplayCell>>>)
    ensures
        board@.wf() <==> result.is_some(),
        result.is_some() ==> shows(result.unwrap()@, board@),
        result.is_some() ==> grid_model(result.unwrap()@) == rendered_grid(board@),
{
    if board.is_well_formed() {
        Some(get_normalized_grid(board))
    } else {
        None
    }
}

} // verus!
