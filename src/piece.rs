use vstd::prelude::*;

use crate::board::{in_bounds, occupied, with_locked, Board, Color, Row};
use crate::config::{HALF_HEIGHT, SPAWN_X, SPAWN_Y};
use crate::shapes::{
    offsets_wf, shape_cells, shape_offsets, turn_offsets, turned_all, Point, SHAPE_COUNT,
};

verus! {

/// The mathematical value of a falling piece.
pub struct PieceView {
    pub shape: nat,
    pub rotation: nat,
    pub x: int,
    pub y: int,
    pub offsets: Seq<Point>,
    pub color: Color,
}

/// The falling piece: a catalog shape, its rotation state (0 to 3), the
/// anchor cell, the current (turned) offsets of its cells, and its colour.
/// It stays apart from the board until it locks, so clearing rows never takes
/// cells from a piece that is still falling.
pub struct Piece {
    pub shape: usize,
    pub rotation: u8,
    pub x: i64,
    pub y: i64,
    pub offsets: Vec<Point>,
    pub color: Color,
}

impl View for Piece {
    type V = PieceView;

    open spec fn view(&self) -> PieceView {
        PieceView {
            shape: self.shape as nat,
            rotation: self.rotation as nat,
            x: self.x as int,
            y: self.y as int,
            offsets: self.offsets@,
            color: self.color,
        }
    }
}

/// The board cells of offsets placed at anchor `(x, y)`.
pub open spec fn cells_at(offsets: Seq<Point>, x: int, y: int) -> Seq<(int, int)> {
    Seq::new(offsets.len(), |i: int| (x + offsets[i].x, y + offsets[i].y))
}

/// The board cells a piece covers.
pub open spec fn piece_cells(p: PieceView) -> Seq<(int, int)> {
    cells_at(p.offsets, p.x, p.y)
}

/// Every cell lies on the board and none of them is locked.
pub open spec fn fits(rows: Seq<Row>, cells: Seq<(int, int)>) -> bool {
    forall|i: int|
        0 <= i < cells.len() ==> in_bounds((#[trigger] cells[i]).0, cells[i].1) && !occupied(
            rows,
            cells[i].0,
            cells[i].1,
        )
}

/// The piece can drop one row: no cell would pass below the floor, and no cell
/// directly below one of its cells is locked.
pub open spec fn can_fall(rows: Seq<Row>, p: PieceView) -> bool {
    &&& forall|i: int|
        0 <= i < p.offsets.len() ==> (#[trigger] piece_cells(p)[i]).1 - 1 >= -HALF_HEIGHT
    &&& forall|i: int|
        0 <= i < p.offsets.len() ==> !occupied(
            rows,
            (#[trigger] piece_cells(p)[i]).0,
            piece_cells(p)[i].1 - 1,
        )
}

/// A well-formed piece: a catalog shape, a rotation state below four,
/// well-formed offsets and an anchor on the board.
pub open spec fn piece_wf(p: PieceView) -> bool {
    &&& p.shape < SHAPE_COUNT
    &&& p.rotation < 4
    &&& offsets_wf(p.offsets)
    &&& in_bounds(p.x, p.y)
}

/// A new piece of catalog shape `shape` at the spawn origin, not turned.
pub open spec fn spawned(shape: nat, color: Color) -> PieceView {
    PieceView {
        shape,
        rotation: 0,
        x: SPAWN_X as int,
        y: SPAWN_Y as int,
        offsets: shape_cells(shape as int),
        color,
    }
}

/// The piece moved by `(dx, dy)`.
pub open spec fn moved(p: PieceView, dx: int, dy: int) -> PieceView {
    PieceView { x: p.x + dx, y: p.y + dy, ..p }
}

/// The piece turned a quarter turn about its anchor.
pub open spec fn turned_piece(p: PieceView) -> PieceView {
    PieceView { rotation: (p.rotation + 1) % 4, offsets: turned_all(p.offsets), ..p }
}

/// The board after locking each of `cells`, in order, with `color`.
pub open spec fn lock_cells(rows: Seq<Row>, cells: Seq<(int, int)>, color: Color) -> Seq<Row>
    decreases cells.len(),
{
    if cells.len() == 0 {
        rows
    } else {
        with_locked(
            lock_cells(rows, cells.drop_last(), color),
            cells.last().0,
            cells.last().1,
            color,
        )
    }
}

impl Piece {
    /// A new piece of catalog shape `shape` at the spawn origin.
    pub fn spawn(shape: usize, color: Color) -> (r: Piece)
        requires
            shape < SHAPE_COUNT,
        ensures
            r@ == spawned(shape as nat, color),
            piece_wf(r@),
    {
        Piece { shape, rotation: 0, x: SPAWN_X, y: SPAWN_Y, offsets: shape_offsets(shape), color }
    }

    /// The board cells the piece covers.
    pub fn cells(&self) -> (r: Vec<Point>)
        requires
            piece_wf(self@),
        ensures
            r@.len() == self@.offsets.len(),
            forall|i: int|
                0 <= i < r@.len() ==> (#[trigger] r@[i]).x == piece_cells(self@)[i].0 && r@[i].y
                    == piece_cells(self@)[i].1,
    {
        let mut r: Vec<Point> = Vec::new();
        let mut i: usize = 0;
        while i < self.offsets.len()
            invariant
                piece_wf(self@),
                0 <= i <= self.offsets@.len(),
                r@.len() == i,
                forall|k: int|
                    0 <= k < i ==> (#[trigger] r@[k]).x == piece_cells(self@)[k].0 && r@[k].y
                        == piece_cells(self@)[k].1,
            decreases self.offsets@.len() - i,
        {
            let o = self.offsets[i];
            assert(crate::shapes::offset_ok(self.offsets@[i as int]));
            r.push(Point { x: self.x + o.x, y: self.y + o.y });
            i = i + 1;
        }
        r
    }

    /// Whether the piece, moved by `(dx, dy)`, lies on the board clear of
    /// locked cells.
    pub fn fits_moved(&self, board: &Board, dx: i64, dy: i64) -> (r: bool)
        requires
            piece_wf(self@),
            board.wf(),
            -1 <= dx <= 1,
            -1 <= dy <= 1,
        ensures
            r == fits(board@, cells_at(self@.offsets, self@.x + dx, self@.y + dy)),
    {
        fits_offsets(board, &self.offsets, self.x + dx, self.y + dy)
    }

    /// Whether the piece can drop one row. All cells are checked against the
    /// floor before any is checked against the locked cells below it.
    pub fn can_fall(&self, board: &Board) -> (r: bool)
        requires
            piece_wf(self@),
            board.wf(),
        ensures
            r == can_fall(board@, self@),
    {
        let mut i: usize = 0;
        while i < self.offsets.len()
            invariant
                piece_wf(self@),
                0 <= i <= self.offsets@.len(),
                forall|k: int|
                    0 <= k < i ==> (#[trigger] piece_cells(self@)[k]).1 - 1 >= -HALF_HEIGHT,
            decreases self.offsets@.len() - i,
        {
            assert(crate::shapes::offset_ok(self.offsets@[i as int]));
            if self.y + self.offsets[i].y - 1 < -HALF_HEIGHT {
                assert(piece_cells(self@)[i as int].1 - 1 < -HALF_HEIGHT);
                return false;
            }
            i = i + 1;
        }
        let mut j: usize = 0;
        while j < self.offsets.len()
            invariant
                piece_wf(self@),
                board.wf(),
                0 <= j <= self.offsets@.len(),
                forall|k: int|
                    0 <= k < self.offsets@.len() ==> (#[trigger] piece_cells(self@)[k]).1 - 1
                        >= -HALF_HEIGHT,
                forall|k: int|
                    0 <= k < j ==> !occupied(
                        board@,
                        (#[trigger] piece_cells(self@)[k]).0,
                        piece_cells(self@)[k].1 - 1,
                    ),
            decreases self.offsets@.len() - j,
        {
            assert(crate::shapes::offset_ok(self.offsets@[j as int]));
            let o = self.offsets[j];
            if board.is_occupied(self.x + o.x, self.y + o.y - 1) {
                assert(occupied(
                    board@,
                    piece_cells(self@)[j as int].0,
                    piece_cells(self@)[j as int].1 - 1,
                ));
                return false;
            }
            j = j + 1;
        }
        true
    }

    /// The piece turned a quarter turn about its anchor, with no check against
    /// the board.
    pub fn turned(&self) -> (r: Piece)
        requires
            piece_wf(self@),
        ensures
            r@ == turned_piece(self@),
            piece_wf(r@),
    {
        Piece {
            shape: self.shape,
            rotation: (self.rotation + 1) % 4,
            x: self.x,
            y: self.y,
            offsets: turn_offsets(&self.offsets),
            color: self.color,
        }
    }

    /// Writes every cell of the piece into the board, locked with its colour.
    pub fn lock_into(&self, board: &mut Board)
        requires
            piece_wf(self@),
            old(board).wf(),
            fits(old(board)@, piece_cells(self@)),
        ensures
            final(board).wf(),
            final(board)@ == lock_cells(old(board)@, piece_cells(self@), self.color),
    {
        let ghost cells = piece_cells(self@);
        let mut i: usize = 0;
        while i < self.offsets.len()
            invariant
                piece_wf(self@),
                board.wf(),
                cells == piece_cells(self@),
                fits(old(board)@, cells),
                0 <= i <= self.offsets@.len(),
                board@ == lock_cells(old(board)@, cells.take(i as int), self.color),
            decreases self.offsets@.len() - i,
        {
            assert(crate::shapes::offset_ok(self.offsets@[i as int]));
            let o = self.offsets[i];
            assert(in_bounds(cells[i as int].0, cells[i as int].1));
            board.lock(self.x + o.x, self.y + o.y, self.color);
            i = i + 1;
            assert(cells.take(i as int).drop_last() =~= cells.take(i - 1));
        }
        assert(cells.take(i as int) =~= cells);
    }
}

/// Whether `offsets` placed at anchor `(x, y)` lie on the board clear of
/// locked cells.
pub fn fits_offsets(board: &Board, offsets: &Vec<Point>, x: i64, y: i64) -> (r: bool)
    requires
        board.wf(),
        offsets_wf(offsets@),
        -HALF_HEIGHT - 10 <= x <= HALF_HEIGHT + 10,
        -HALF_HEIGHT - 10 <= y <= HALF_HEIGHT + 10,
    ensures
        r == fits(board@, cells_at(offsets@, x as int, y as int)),
{
    let ghost cells = cells_at(offsets@, x as int, y as int);
    let mut i: usize = 0;
    while i < offsets.len()
        invariant
            board.wf(),
            offsets_wf(offsets@),
            -HALF_HEIGHT - 10 <= x <= HALF_HEIGHT + 10,
            -HALF_HEIGHT - 10 <= y <= HALF_HEIGHT + 10,
            cells == cells_at(offsets@, x as int, y as int),
            0 <= i <= offsets@.len(),
            forall|k: int|
                0 <= k < i ==> in_bounds((#[trigger] cells[k]).0, cells[k].1) && !occupied(
                    board@,
                    cells[k].0,
                    cells[k].1,
                ),
        decreases offsets@.len() - i,
    {
        assert(crate::shapes::offset_ok(offsets@[i as int]));
        let o = offsets[i];
        let cx = x + o.x;
        let cy = y + o.y;
        if !Board::is_inside(cx, cy) || board.is_occupied(cx, cy) {
            assert(!(in_bounds(cells[i as int].0, cells[i as int].1) && !occupied(
                board@,
                cells[i as int].0,
                cells[i as int].1,
            )));
            return false;
        }
        i = i + 1;
    }
    true
}

} // verus!
