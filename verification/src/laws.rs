//! What holds of every rasterized board.

use crate::board::{BoardModel, Coordinate, PieceModel, BOARD_SIDE};
use crate::decimal::{killed_tag, lemma_decimal_nonempty, plane_tag};
use crate::grid::{
    blank_glyph, default_cell, grid_model, hit_glyph, miss_glyph, on_board, position, CellModel,
    DisplayCell,
};
use crate::raster::{
    killed_layer, killed_paint, live_layer, live_paint, marked_cell, rendered_cell,
    rendered_grid, shows,
};
use vstd::prelude::*;

verus! {

/// None of the first `n` planes of the list has its head or a body tile at `pos`.
pub open spec fn none_covers(planes: Seq<PieceModel>, n: int, pos: Coordinate) -> bool {
    forall|i: int| 0 <= i < n && i < planes.len() ==> !(#[trigger] planes[i]).covers(pos)
}

/// None of the planes of the list after position `k` has its head or a body tile
/// at `pos`.
pub open spec fn none_covers_after(planes: Seq<PieceModel>, k: int, pos: Coordinate) -> bool {
    forall|i: int| k < i < planes.len() ==> !(#[trigger] planes[i]).covers(pos)
}

/// The grid of a rasterized board holds, at each position, the rendered cell of
/// that position.
pub proof fn lemma_rendered_grid_cells(board: BoardModel, r: int, c: int)
    requires
        on_board(r, c),
    ensures
        rendered_grid(board).len() == BOARD_SIDE,
        rendered_grid(board)[r].len() == BOARD_SIDE,
        rendered_grid(board)[r][c] == rendered_cell(board, position(r, c)),
{
}

/// Live planes that do not cover a position leave its cell as it was.
pub proof fn lemma_live_layer_skips(
    planes: Seq<PieceModel>,
    n: nat,
    pos: Coordinate,
    under: CellModel,
)
    requires
        none_covers(planes, n as int, pos),
    ensures
        live_layer(planes, n, pos, under) == under,
    decreases n,
{
    if n != 0 && n <= planes.len() {
        assert(!planes[n - 1].covers(pos));
        lemma_live_layer_skips(planes, (n - 1) as nat, pos, under);
    }
}

/// Destroyed planes that do not cover a position leave its cell as it was.
pub proof fn lemma_killed_layer_skips(
    planes: Seq<PieceModel>,
    n: nat,
    pos: Coordinate,
    under: CellModel,
)
    requires
        none_covers(planes, n as int, pos),
    ensures
        killed_layer(planes, n, pos, under) == under,
    decreases n,
{
    if n != 0 && n <= planes.len() {
        assert(!planes[n - 1].covers(pos));
        lemma_killed_layer_skips(planes, (n - 1) as nat, pos, under);
    }
}

/// The last destroyed plane that covers a position decides its cell.
pub proof fn lemma_killed_layer_last_wins(
    planes: Seq<PieceModel>,
    n: nat,
    k: int,
    pos: Coordinate,
    under: CellModel,
)
    requires
        0 <= k < n <= planes.len(),
        none_covers_after(planes, k, pos),
    ensures
        killed_layer(planes, n, pos, under) == killed_paint(
            planes[k],
            pos,
            killed_layer(planes, k as nat, pos, under),
        ),
    decreases n,
{
    if n - 1 > k {
        assert(!planes[n - 1].covers(pos));
        lemma_killed_layer_last_wins(planes, (n - 1) as nat, k, pos, under);
    }
}

/// A board without planes, hits, misses and destroyed planes rasterizes to a
/// grid in which every cell is the untouched cell.
pub proof fn lemma_empty_board_is_blank(board: BoardModel)
    requires
        board.planes.len() == 0,
        board.hits.len() == 0,
        board.misses.len() == 0,
        board.killed_planes.len() == 0,
    ensures
        forall|r: int, c: int|
            on_board(r, c) ==> (#[trigger] rendered_grid(board)[r][c]) == default_cell(),
        forall|pos: Coordinate| #[trigger] rendered_cell(board, pos) == default_cell(),
{
    assert forall|pos: Coordinate| #[trigger] rendered_cell(board, pos) == default_cell() by {
        assert(!board.hits.contains(pos));
        assert(!board.misses.contains(pos));
    }
}

/// On a board whose only content is one live plane without body tiles, the
/// cell of the plane's head carries the plane's tag and a blank glyph, and every
/// other cell of the grid is the untouched cell: exactly one cell carries the
/// tag.
pub proof fn lemma_lone_head_tags_one_cell(board: BoardModel)
    requires
        board.wf(),
        board.planes.len() == 1,
        board.planes[0].body.len() == 0,
        board.hits.len() == 0,
        board.misses.len() == 0,
        board.killed_planes.len() == 0,
    ensures
        on_board(board.planes[0].head.row as int, board.planes[0].head.col as int),
        forall|r: int, c: int|
            on_board(r, c) ==> (#[trigger] rendered_grid(board)[r][c]) == if position(r, c)
                == board.planes[0].head {
                CellModel { style_tag: plane_tag(board.planes[0].id), glyph: blank_glyph() }
            } else {
                default_cell()
            },
        forall|r: int, c: int|
            on_board(r, c) ==> ((#[trigger] rendered_grid(board)[r][c]).style_tag == plane_tag(
                board.planes[0].id,
            ) <==> r == board.planes[0].head.row && c == board.planes[0].head.col),
{
    let plane = board.planes[0];
    assert(plane.wf());
    lemma_decimal_nonempty(plane.id as nat);
    assert(plane_tag(plane.id).len() >= 1);
    assert(default_cell().style_tag.len() == 0);
    assert forall|r: int, c: int| on_board(r, c) implies (#[trigger] rendered_grid(board)[r][c])
        == if position(r, c) == plane.head {
        CellModel { style_tag: plane_tag(plane.id), glyph: blank_glyph() }
    } else {
        default_cell()
    } by {
        let pos = position(r, c);
        assert(!board.hits.contains(pos));
        assert(!board.misses.contains(pos));
        assert(!plane.body.contains(pos));
        assert(live_layer(board.planes, 0, pos, default_cell()) == default_cell());
        assert(live_layer(board.planes, 1, pos, default_cell()) == live_paint(
            plane,
            pos,
            default_cell(),
        ));
    }
}

/// A hit at a position that no plane, live or destroyed, covers and that is not
/// also a miss shows the hit glyph under an empty tag.
pub proof fn lemma_hit_on_open_cell(board: BoardModel, pos: Coordinate)
    requires
        board.hits.contains(pos),
        !board.misses.contains(pos),
        none_covers(board.planes, board.planes.len() as int, pos),
        none_covers(board.killed_planes, board.killed_planes.len() as int, pos),
    ensures
        rendered_cell(board, pos) == (CellModel { style_tag: Seq::empty(), glyph: hit_glyph() }),
{
    lemma_live_layer_skips(board.planes, board.planes.len(), pos, default_cell());
    lemma_killed_layer_skips(
        board.killed_planes,
        board.killed_planes.len(),
        pos,
        marked_cell(board, pos),
    );
}

/// A miss at a position that no destroyed plane covers shows the miss glyph,
/// whatever the live planes and the hits did to that position; its tag is the one
/// that the live planes left.
pub proof fn lemma_miss_marks_cell(board: BoardModel, pos: Coordinate)
    requires
        board.misses.contains(pos),
        none_covers(board.killed_planes, board.killed_planes.len() as int, pos),
    ensures
        rendered_cell(board, pos) == (CellModel {
            style_tag: live_layer(
                board.planes,
                board.planes.len(),
                pos,
                default_cell(),
            ).style_tag,
            glyph: miss_glyph(),
        }),
{
    lemma_killed_layer_skips(
        board.killed_planes,
        board.killed_planes.len(),
        pos,
        marked_cell(board, pos),
    );
}

/// A body tile of a destroyed plane that no later destroyed plane covers shows a
/// blank glyph under the plane's killed tag, whether or not the tile is also a
/// hit or a miss or belongs to a live plane.
pub proof fn lemma_killed_body_cell(board: BoardModel, k: int, pos: Coordinate)
    requires
        0 <= k < board.killed_planes.len(),
        board.killed_planes[k].body.contains(pos),
        none_covers_after(board.killed_planes, k, pos),
    ensures
        rendered_cell(board, pos) == (CellModel {
            style_tag: killed_tag(board.killed_planes[k].id),
            glyph: blank_glyph(),
        }),
{
    lemma_killed_layer_last_wins(
        board.killed_planes,
        board.killed_planes.len(),
        k,
        pos,
        marked_cell(board, pos),
    );
}

/// The head of a destroyed plane, where it is none of the plane's own body tiles
/// and no later destroyed plane covers it, shows the hit glyph under the plane's
/// killed tag.
pub proof fn lemma_killed_head_cell(board: BoardModel, k: int)
    requires
        0 <= k < board.killed_planes.len(),
        !board.killed_planes[k].body.contains(board.killed_planes[k].head),
        none_covers_after(board.killed_planes, k, board.killed_planes[k].head),
    ensures
        rendered_cell(board, board.killed_planes[k].head) == (CellModel {
            style_tag: killed_tag(board.killed_planes[k].id),
            glyph: hit_glyph(),
        }),
{
    let pos = board.killed_planes[k].head;
    lemma_killed_layer_last_wins(
        board.killed_planes,
        board.killed_planes.len(),
        k,
        pos,
        marked_cell(board, pos),
    );
}

/// Two grids that were rasterized from the same board are equal cell for cell.
pub proof fn lemma_rasterize_repeatable(
    first: Seq<Vec<DisplayCell>>,
    second: Seq<Vec<DisplayCell>>,
    board: BoardModel,
)
    requires
        shows(first, board),
        shows(second, board),
    ensures
        first.len() == second.len(),
        forall|r: int| 0 <= r < BOARD_SIDE ==> (#[trigger] first[r])@.len() == second[r]@.len(),
        forall|r: int, c: int| on_board(r, c) ==> (#[trigger] first[r]@[c])@ == second[r]@[c]@,
        grid_model(first) == grid_model(second),
{
    assert(grid_model(first) =~~= grid_model(second));
}

/// Within the hits and within the misses only the positions count: two boards
/// with the same planes whose hits hold the same positions, and whose misses hold
/// the same positions, rasterize to the same grid.
pub proof fn lemma_marks_by_membership(a: BoardModel, b: BoardModel)
    requires
        a.planes == b.planes,
        a.killed_planes == b.killed_planes,
        forall|pos: Coordinate| a.hits.contains(pos) == b.hits.contains(pos),
        forall|pos: Coordinate| a.misses.contains(pos) == b.misses.contains(pos),
    ensures
        rendered_grid(a) == rendered_grid(b),
{
    assert forall|pos: Coordinate| rendered_cell(a, pos) == rendered_cell(b, pos) by {
        assert(a.hits.contains(pos) == b.hits.contains(pos));
        assert(a.misses.contains(pos) == b.misses.contains(pos));
    }
    assert(rendered_grid(a) =~~= rendered_grid(b));
}

/// The order in which the hits are listed, and the order in which the misses
/// are listed, does not matter: two boards with the same planes whose hits are
/// rearrangements of each other, and whose misses are, rasterize to the same
/// grid.
pub proof fn lemma_marks_order_independent(a: BoardModel, b: BoardModel)
    requires
        a.planes == b.planes,
        a.killed_planes == b.killed_planes,
        a.hits.to_multiset() == b.hits.to_multiset(),
        a.misses.to_multiset() == b.misses.to_multiset(),
    ensures
        rendered_grid(a) == rendered_grid(b),
{
    assert forall|pos: Coordinate| a.hits.contains(pos) == b.hits.contains(pos) by {
        vstd::seq_lib::to_multiset_contains(a.hits, pos);
        vstd::seq_lib::to_multiset_contains(b.hits, pos);
    }
    assert forall|pos: Coordinate| a.misses.contains(pos) == b.misses.contains(pos) by {
        vstd::seq_lib::to_multiset_contains(a.misses, pos);
        vstd::seq_lib::to_multiset_contains(b.misses, pos);
    }
    lemma_marks_by_membership(a, b);
}

} // verus!
