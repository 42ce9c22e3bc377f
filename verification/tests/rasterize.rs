use battleplanes_web::board::{BoardSnapshot, Coordinate, Piece};
use battleplanes_web::grid::{blank_grid, DisplayCell};
use battleplanes_web::raster::{
    get_normalized_grid, mark_hits, mark_misses, paint_killed_piece, paint_killed_pieces,
    paint_live_piece, paint_live_pieces, rasterize, write_glyph, write_tag,
};

fn at(row: usize, col: usize) -> Coordinate {
    Coordinate::new(row, col)
}

fn cell(style_tag: &str, glyph: &str) -> DisplayCell {
    DisplayCell { style_tag: style_tag.to_string(), glyph: glyph.to_string() }
}

fn count_tagged(grid: &Vec<Vec<DisplayCell>>, tag: &str) -> usize {
    let mut n = 0;
    for row in grid {
        for c in row {
            if c.style_tag == tag {
                n += 1;
            }
        }
    }
    n
}

#[test]
fn empty_board_is_all_blank() {
    let grid = get_normalized_grid(&BoardSnapshot::empty());
    assert_eq!(grid.len(), 10);
    for row in &grid {
        assert_eq!(row.len(), 10);
        for c in row {
            assert_eq!(*c, cell("", " "));
        }
    }
}

#[test]
fn lone_head_tags_exactly_one_cell() {
    let mut board = BoardSnapshot::empty();
    board.planes.push(Piece::new(7, at(4, 6), vec![]));
    let grid = get_normalized_grid(&board);
    assert_eq!(count_tagged(&grid, "plane-7"), 1);
    for r in 0..10 {
        for c in 0..10 {
            if (r, c) == (4, 6) {
                assert_eq!(grid[r][c], cell("plane-7", " "));
            } else {
                assert_eq!(grid[r][c], cell("", " "));
            }
        }
    }
}

#[test]
fn hit_on_open_cell_has_empty_tag() {
    let mut board = BoardSnapshot::empty();
    board.planes.push(Piece::new(1, at(0, 0), vec![at(1, 0)]));
    board.hits.push(at(3, 3));
    let grid = get_normalized_grid(&board);
    assert_eq!(grid[3][3], cell("", "✕"));
    assert_eq!(grid[0][0], cell("plane-1", " "));
    assert_eq!(grid[1][0], cell("plane-1", " "));
    assert_eq!(grid[3][4], cell("", " "));
}

#[test]
fn hit_on_live_plane_keeps_the_tag() {
    let mut board = BoardSnapshot::empty();
    board.planes.push(Piece::new(3, at(2, 2), vec![at(3, 1), at(3, 2), at(3, 3)]));
    board.hits.push(at(3, 2));
    board.hits.push(at(2, 2));
    let grid = get_normalized_grid(&board);
    assert_eq!(grid[3][2], cell("plane-3", "✕"));
    assert_eq!(grid[2][2], cell("plane-3", "✕"));
    assert_eq!(grid[3][1], cell("plane-3", " "));
    assert_eq!(grid[3][3], cell("plane-3", " "));
}

#[test]
fn miss_marks_cell_whatever_the_tag() {
    let mut board = BoardSnapshot::empty();
    board.planes.push(Piece::new(2, at(5, 5), vec![at(6, 5)]));
    board.misses.push(at(6, 5));
    board.misses.push(at(5, 5));
    board.misses.push(at(9, 9));
    let grid = get_normalized_grid(&board);
    assert_eq!(grid[6][5], cell("plane-2", "●"));
    assert_eq!(grid[5][5], cell("plane-2", "●"));
    assert_eq!(grid[9][9], cell("", "●"));
}

#[test]
fn miss_overrides_hit_at_the_same_position() {
    let mut board = BoardSnapshot::empty();
    board.hits.push(at(1, 1));
    board.misses.push(at(1, 1));
    let grid = get_normalized_grid(&board);
    assert_eq!(grid[1][1], cell("", "●"));
}

#[test]
fn destroyed_plane_overrides_hits_on_its_cells() {
    let mut board = BoardSnapshot::empty();
    board.hits.push(at(2, 2));
    board.hits.push(at(3, 1));
    board.hits.push(at(3, 2));
    board.hits.push(at(3, 3));
    board.killed_planes.push(Piece::new(4, at(2, 2), vec![at(3, 1), at(3, 2), at(3, 3)]));
    let grid = get_normalized_grid(&board);
    assert_eq!(grid[2][2], cell("plane-killed-4", "✕"));
    assert_eq!(grid[3][1], cell("plane-killed-4", " "));
    assert_eq!(grid[3][2], cell("plane-killed-4", " "));
    assert_eq!(grid[3][3], cell("plane-killed-4", " "));
    assert_eq!(count_tagged(&grid, "plane-killed-4"), 4);
}

#[test]
fn destroyed_plane_overrides_miss_and_live_tag() {
    let mut board = BoardSnapshot::empty();
    board.planes.push(Piece::new(1, at(0, 0), vec![at(0, 1)]));
    board.misses.push(at(0, 1));
    board.killed_planes.push(Piece::new(9, at(0, 0), vec![at(0, 1)]));
    let grid = get_normalized_grid(&board);
    assert_eq!(grid[0][0], cell("plane-killed-9", "✕"));
    assert_eq!(grid[0][1], cell("plane-killed-9", " "));
}

#[test]
fn destroyed_head_listed_in_its_body_is_blank() {
    let mut board = BoardSnapshot::empty();
    board.killed_planes.push(Piece::new(5, at(7, 7), vec![at(7, 7), at(8, 7)]));
    let grid = get_normalized_grid(&board);
    assert_eq!(grid[7][7], cell("plane-killed-5", " "));
    assert_eq!(grid[8][7], cell("plane-killed-5", " "));
}

#[test]
fn later_plane_wins_a_shared_cell() {
    let mut board = BoardSnapshot::empty();
    board.planes.push(Piece::new(1, at(4, 4), vec![at(4, 5)]));
    board.planes.push(Piece::new(2, at(4, 5), vec![at(4, 6)]));
    board.killed_planes.push(Piece::new(3, at(0, 0), vec![at(0, 1)]));
    board.killed_planes.push(Piece::new(4, at(0, 1), vec![]));
    let grid = get_normalized_grid(&board);
    assert_eq!(grid[4][4], cell("plane-1", " "));
    assert_eq!(grid[4][5], cell("plane-2", " "));
    assert_eq!(grid[4][6], cell("plane-2", " "));
    assert_eq!(grid[0][0], cell("plane-killed-3", "✕"));
    assert_eq!(grid[0][1], cell("plane-killed-4", "✕"));
}

#[test]
fn rasterizing_twice_gives_equal_grids() {
    let mut board = BoardSnapshot::empty();
    board.planes.push(Piece::new(12, at(1, 2), vec![at(2, 1), at(2, 2), at(2, 3)]));
    board.hits.push(at(2, 2));
    board.misses.push(at(8, 8));
    board.killed_planes.push(Piece::new(30, at(6, 6), vec![at(7, 6)]));
    let before = board.clone();
    let first = get_normalized_grid(&board);
    let second = get_normalized_grid(&board);
    assert_eq!(first, second);
    assert_eq!(board, before);
}

#[test]
fn hits_in_either_order_give_the_same_grid() {
    let mut forward = BoardSnapshot::empty();
    forward.hits.push(at(2, 3));
    forward.hits.push(at(5, 5));
    let mut backward = BoardSnapshot::empty();
    backward.hits.push(at(5, 5));
    backward.hits.push(at(2, 3));
    let a = get_normalized_grid(&forward);
    let b = get_normalized_grid(&backward);
    assert_eq!(a, b);
    assert_eq!(a[2][3], cell("", "✕"));
    assert_eq!(a[5][5], cell("", "✕"));
    assert_eq!(a[3][2], cell("", " "));
}

#[test]
fn misses_in_either_order_give_the_same_grid() {
    let mut forward = BoardSnapshot::empty();
    forward.misses.push(at(0, 9));
    forward.misses.push(at(9, 0));
    forward.misses.push(at(0, 9));
    let mut backward = BoardSnapshot::empty();
    backward.misses.push(at(9, 0));
    backward.misses.push(at(0, 9));
    assert_eq!(get_normalized_grid(&forward), get_normalized_grid(&backward));
}

#[test]
fn corners_are_addressed_row_first() {
    let mut board = BoardSnapshot::empty();
    board.hits.push(at(0, 9));
    board.misses.push(at(9, 0));
    let grid = get_normalized_grid(&board);
    assert_eq!(grid[0][9], cell("", "✕"));
    assert_eq!(grid[9][0], cell("", "●"));
    assert_eq!(grid[0][0], cell("", " "));
    assert_eq!(grid[9][9], cell("", " "));
}

#[test]
fn rasterize_accepts_a_board_within_bounds() {
    let mut board = BoardSnapshot::empty();
    board.planes.push(Piece::new(1, at(9, 9), vec![at(0, 0)]));
    let grid = rasterize(&board);
    assert_eq!(grid, Some(get_normalized_grid(&board)));
}

#[test]
fn rasterize_rejects_a_position_off_the_board() {
    let mut board = BoardSnapshot::empty();
    board.hits.push(at(10, 0));
    assert_eq!(rasterize(&board), None);

    let mut board = BoardSnapshot::empty();
    board.misses.push(at(0, 10));
    assert_eq!(rasterize(&board), None);

    let mut board = BoardSnapshot::empty();
    board.planes.push(Piece::new(1, at(0, 0), vec![at(3, 3), at(3, 11)]));
    assert_eq!(rasterize(&board), None);

    let mut board = BoardSnapshot::empty();
    board.killed_planes.push(Piece::new(1, at(usize::MAX, 0), vec![]));
    assert_eq!(rasterize(&board), None);
}

#[test]
fn write_tag_changes_one_tag_only() {
    let mut grid = blank_grid();
    write_glyph(&mut grid, at(2, 7), "✕".to_string());
    write_tag(&mut grid, at(2, 7), "plane-1".to_string());
    assert_eq!(grid[2][7], cell("plane-1", "✕"));
    assert_eq!(grid[7][2], cell("", " "));
    assert_eq!(count_tagged(&grid, ""), 99);
}

#[test]
fn write_glyph_changes_one_glyph_only() {
    let mut grid = blank_grid();
    write_tag(&mut grid, at(9, 0), "plane-8".to_string());
    write_glyph(&mut grid, at(9, 0), "●".to_string());
    assert_eq!(grid[9][0], cell("plane-8", "●"));
    assert_eq!(grid[0][9], cell("", " "));
}

#[test]
fn live_head_keeps_an_earlier_glyph() {
    let mut grid = blank_grid();
    mark_hits(&mut grid, &vec![at(1, 1), at(1, 2)]);
    paint_live_piece(&mut grid, &Piece::new(6, at(1, 1), vec![at(1, 2)]));
    assert_eq!(grid[1][1], cell("plane-6", "✕"));
    assert_eq!(grid[1][2], cell("plane-6", " "));
}

#[test]
fn killed_piece_paints_head_and_body() {
    let mut grid = blank_grid();
    mark_misses(&mut grid, &vec![at(1, 1), at(1, 2), at(5, 5)]);
    paint_killed_piece(&mut grid, &Piece::new(6, at(1, 1), vec![at(1, 2)]));
    assert_eq!(grid[1][1], cell("plane-killed-6", "✕"));
    assert_eq!(grid[1][2], cell("plane-killed-6", " "));
    assert_eq!(grid[5][5], cell("", "●"));
}

#[test]
fn passes_in_order_equal_the_rasterizer() {
    let mut board = BoardSnapshot::empty();
    board.planes.push(Piece::new(1, at(1, 2), vec![at(2, 1), at(2, 2), at(2, 3), at(3, 2)]));
    board.planes.push(Piece::new(2, at(6, 6), vec![at(7, 5), at(7, 6), at(7, 7)]));
    board.hits.push(at(2, 2));
    board.hits.push(at(4, 4));
    board.misses.push(at(0, 0));
    board.killed_planes.push(Piece::new(3, at(4, 4), vec![at(5, 4)]));
    let mut grid = blank_grid();
    paint_live_pieces(&mut grid, &board.planes);
    mark_hits(&mut grid, &board.hits);
    mark_misses(&mut grid, &board.misses);
    paint_killed_pieces(&mut grid, &board.killed_planes);
    assert_eq!(grid, get_normalized_grid(&board));
    assert_eq!(grid[2][2], cell("plane-1", "✕"));
    assert_eq!(grid[4][4], cell("plane-killed-3", "✕"));
    assert_eq!(grid[5][4], cell("plane-killed-3", " "));
    assert_eq!(grid[0][0], cell("", "●"));
    assert_eq!(grid[7][7], cell("plane-2", " "));
}

#[test]
fn the_three_glyphs_differ() {
    let mut board = BoardSnapshot::empty();
    board.hits.push(at(0, 1));
    board.misses.push(at(0, 2));
    let grid = get_normalized_grid(&board);
    let blank = grid[0][0].glyph.clone();
    let hit = grid[0][1].glyph.clone();
    let miss = grid[0][2].glyph.clone();
    assert_ne!(blank, hit);
    assert_ne!(blank, miss);
    assert_ne!(hit, miss);
    assert_eq!(blank.chars().count(), 1);
    assert_eq!(hit.chars().count(), 1);
    assert_eq!(miss.chars().count(), 1);
}

#[test]
fn duplicate_positions_change_nothing() {
    let mut once = BoardSnapshot::empty();
    once.hits.push(at(6, 1));
    once.planes.push(Piece::new(8, at(6, 1), vec![at(6, 2)]));
    let mut twice = once.clone();
    twice.hits.push(at(6, 1));
    twice.planes.push(Piece::new(8, at(6, 1), vec![at(6, 2), at(6, 2)]));
    assert_eq!(get_normalized_grid(&once), get_normalized_grid(&twice));
}
