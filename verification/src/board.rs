//! The board snapshot that the rasterizer reads.

use vstd::prelude::*;

verus! {

/// The side of the square board.
pub const BOARD_SIDE: usize = 10;

/// A zero-based position on the board.
#[derive(Clone, Copy, Debug, PartialEq, Eq, Structural)]
pub struct Coordinate {
    pub row: usize,
    pub col: usize,
}

impl Coordinate {
    /// Both components lie on the board.
    pub open spec fn in_bounds(self) -> bool {
        self.row < BOARD_SIDE && self.col < BOARD_SIDE
    }

    pub fn new(row: usize, col: usize) -> (c: Coordinate)
        ensures
            c == (Coordinate { row, col }),
    {
        Coordinate { row, col }
    }

    /// Tells whether both components lie on the board.
    pub fn is_in_bounds(&self) -> (b: bool)
        ensures
            b == self.in_bounds(),
    {
        self.row < BOARD_SIDE && self.col < BOARD_SIDE
    }
}

/// Some element of `tiles` before position `n` equals `pos`.
pub open spec fn occurs_before(tiles: Seq<Coordinate>, n: int, pos: Coordinate) -> bool {
    exists|k: int| 0 <= k < n && k < tiles.len() && #[trigger] tiles[k] == pos
}

/// Every element of `tiles` lies on the board.
pub open spec fn all_in_bounds(tiles: Seq<Coordinate>) -> bool {
    forall|k: int| 0 <= k < tiles.len() ==> (#[trigger] tiles[k]).in_bounds()
}

/// The tiles that are present, in the order in which they are listed.
pub open spec fn present_tiles(tiles: Seq<Option<Coordinate>>) -> Seq<Coordinate>
    decreases tiles.len(),
{
    if tiles.len() == 0 {
        Seq::empty()
    } else {
        match tiles.last() {
            Some(tile) => present_tiles(tiles.drop_last()).push(tile),
            None => present_tiles(tiles.drop_last()),
        }
    }
}

/// A position is among the present tiles exactly when the list holds it.
pub proof fn lemma_present_tiles_membership(tiles: Seq<Option<Coordinate>>, pos: Coordinate)
    ensures
        present_tiles(tiles).contains(pos) <==> tiles.contains(Some(pos)),
    decreases tiles.len(),
{
    if tiles.len() > 0 {
        let front = tiles.drop_last();
        lemma_present_tiles_membership(front, pos);
        let kept = present_tiles(front);
        if tiles.contains(Some(pos)) {
            let k = choose|k: int| 0 <= k < tiles.len() && tiles[k] == Some(pos);
            if k < tiles.len() - 1 {
                assert(front[k] == Some(pos));
                assert(front.contains(Some(pos)));
                let j = choose|j: int| 0 <= j < kept.len() && kept[j] == pos;
                assert(present_tiles(tiles)[j] == pos);
            } else {
                assert(present_tiles(tiles) == kept.push(pos));
                assert(present_tiles(tiles)[kept.len() as int] == pos);
            }
        }
        if present_tiles(tiles).contains(pos) {
            let j = choose|j: int|
                0 <= j < present_tiles(tiles).len() && present_tiles(tiles)[j] == pos;
            if j < kept.len() {
                assert(kept[j] == pos);
                assert(kept.contains(pos));
                let k = choose|k: int| 0 <= k < front.len() && front[k] == Some(pos);
                assert(tiles[k] == Some(pos));
            } else {
                assert(tiles[tiles.len() - 1] == Some(pos));
            }
        }
    }
}

/// Keeps the tiles that are present and drops the absent ones.
pub fn collect_present(tiles: &Vec<Option<Coordinate>>) -> (body: Vec<Coordinate>)
    ensures
        body@ == present_tiles(tiles@),
{
    let mut body: Vec<Coordinate> = Vec::new();
    for i in 0..tiles.len()
        invariant
            body@ == present_tiles(tiles@.take(i as int)),
    {
        assert(tiles@.take(i + 1).drop_last() =~= tiles@.take(i as int));
        assert(tiles@.take(i + 1).last() == tiles@[i as int]);
        match tiles[i] {
            Some(tile) => {
                body.push(tile);
            },
            None => {},
        }
    }
    assert(tiles@.take(tiles@.len() as int) =~= tiles@);
    body
}

/// A plane: its identifier, its head and the body tiles that are on the board.
#[derive(Clone, Debug, PartialEq, Eq)]
pub struct Piece {
    pub id: u64,
    pub head: Coordinate,
    pub body: Vec<Coordinate>,
}

/// The mathematical value of a [`Piece`].
pub ghost struct PieceModel {
    pub id: u64,
    pub head: Coordinate,
    pub body: Seq<Coordinate>,
}

impl PieceModel {
    /// The head and every body tile lie on the board.
    pub open spec fn wf(self) -> bool {
        self.head.in_bounds() && all_in_bounds(self.body)
    }

    /// `pos` is one of the body tiles.
    pub open spec fn body_covers(self, pos: Coordinate) -> bool {
        self.body.contains(pos)
    }

    /// `pos` is the head or one of the body tiles.
    pub open spec fn covers(self, pos: Coordinate) -> bool {
        self.head == pos || self.body.contains(pos)
    }
}

impl View for Piece {
    type V = PieceModel;

    open spec fn view(&self) -> PieceModel {
        PieceModel { id: self.id, head: self.head, body: self.body@ }
    }
}

impl Piece {
    pub fn new(id: u64, head: Coordinate, body: Vec<Coordinate>) -> (p: Piece)
        ensures
            p@ == (PieceModel { id, head, body: body@ }),
    {
        Piece { id, head, body }
    }

    /// A plane whose body is the present tiles of `tiles`, in their order.
    pub fn from_tiles(id: u64, head: Coordinate, tiles: &Vec<Option<Coordinate>>) -> (p: Piece)
        ensures
            p@ == (PieceModel { id, head, body: present_tiles(tiles@) }),
    {
        Piece { id, head, body: collect_present(tiles) }
    }

    /// Tells whether the head and every body tile lie on the board.
    pub fn is_well_formed(&self) -> (b: bool)
        ensures
            b == self@.wf(),
    {
        self.head.is_in_bounds() && tiles_in_bounds(&self.body)
    }
}

/// The mathematical values of a list of pieces, in the list's order.
pub open spec fn pieces_model(pieces: Seq<Piece>) -> Seq<PieceModel> {
    Seq::new(pieces.len(), |i: int| pieces[i]@)
}

/// Every piece of the list is well formed.
pub open spec fn all_pieces_wf(pieces: Seq<PieceModel>) -> bool {
    forall|i: int| 0 <= i < pieces.len() ==> (#[trigger] pieces[i]).wf()
}

/// Tells whether every element of `tiles` lies on the board.
pub fn tiles_in_bounds(tiles: &Vec<Coordinate>) -> (b: bool)
    ensures
        b == all_in_bounds(tiles@),
{
    for i in 0..tiles.len()
        invariant
            forall|k: int| 0 <= k < i ==> (#[trigger] tiles@[k]).in_bounds(),
    {
        if !tiles[i].is_in_bounds() {
            return false;
        }
    }
    true
}

/// Tells whether every piece of the list is well formed.
pub fn pieces_in_bounds(pieces: &Vec<Piece>) -> (b: bool)
    ensures
        b == all_pieces_wf(pieces_model(pieces@)),
{
    for i in 0..pieces.len()
        invariant
            forall|k: int| 0 <= k < i ==> (#[trigger] pieces_model(pieces@)[k]).wf(),
    {
        if !pieces[i].is_well_formed() {
            assert(!pieces_model(pieces@)[i as int].wf());
            return false;
        }
        assert(pieces_model(pieces@)[i as int].wf());
    }
    true
}

/// What the game engine reports of a board at one moment.
#[derive(Clone, Debug, PartialEq, Eq)]
pub struct BoardSnapshot {
    /// The planes that are still alive.
    pub planes: Vec<Piece>,
    /// The attacked positions that held a plane tile.
    pub hits: Vec<Coordinate>,
    /// The attacked positions that held nothing.
    pub misses: Vec<Coordinate>,
    /// The planes that were destroyed.
    pub killed_planes: Vec<Piece>,
}

/// The mathematical value of a [`BoardSnapshot`].
pub ghost struct BoardModel {
    pub planes: Seq<PieceModel>,
    pub hits: Seq<Coordinate>,
    pub misses: Seq<Coordinate>,
    pub killed_planes: Seq<PieceModel>,
}

impl BoardModel {
    /// Every position that the snapshot mentions lies on the board.
    pub open spec fn wf(self) -> bool {
        &&& all_pieces_wf(self.planes)
        &&& all_in_bounds(self.hits)
        &&& all_in_bounds(self.misses)
        &&& all_pieces_wf(self.killed_planes)
    }
}

impl View for BoardSnapshot {
    type V = BoardModel;

    open spec fn view(&self) -> BoardModel {
        BoardModel {
            planes: pieces_model(self.planes@),
            hits: self.hits@,
            misses: self.misses@,
            killed_planes: pieces_model(self.killed_planes@),
        }
    }
}

impl BoardSnapshot {
    /// A board with no planes and no attacks.
    pub fn empty() -> (board: BoardSnapshot)
        ensures
            board@.planes.len() == 0,
            board@.hits.len() == 0,
            board@.misses.len() == 0,
            board@.killed_planes.len() == 0,
    {
        BoardSnapshot {
            planes: Vec::new(),
            hits: Vec::new(),
            misses: Vec::new(),
            killed_planes: Vec::new(),
        }
    }

    /// Tells whether every position that the snapshot mentions lies on the board.
    pub fn is_well_formed(&self) -> (b: bool)
        ensures
            b == self@.wf(),
    {
        pieces_in_bounds(&self.planes) && tiles_in_bounds(&self.hits) && tiles_in_bounds(
            &self.misses,
        ) && pieces_in_bounds(&self.killed_planes)
    }
}

} // verus!
