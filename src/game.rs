use vstd::prelude::*;

use crate::board::{
    cell_at, compacted, empty_board, full_row_count, in_bounds, law_compaction_only_lowers,
    occupied, row_full, row_index, rows_wf, Board, Color, Row,
};
use crate::config::{HALF_WIDTH, SCORE_INCREMENT, SPAWN_X, SPAWN_Y};
use crate::piece::{
    can_fall, cells_at, fits, lock_cells, moved, piece_cells, piece_wf, spawned, turned_piece,
    Piece, PieceView,
};
use crate::rng::random_below;
use crate::schedule::{commands_for, timers_after, FrameInput, Timers};
use crate::shapes::{Point, SHAPE_COUNT};

verus! {

/// Phase of a game. `GameOver` is final.
#[derive(Clone, Copy, Debug, PartialEq, Eq, Structural)]
pub enum Phase {
    Playing,
    Paused,
    GameOver,
}

/// What a gravity tick did: the piece dropped one row, it locked (and a new
/// piece took its place), or the game ended.
#[derive(Clone, Copy, Debug, PartialEq, Eq, Structural)]
pub enum TickOutcome {
    Fell,
    Locked,
    GameOver,
}

/// The mathematical value of a game.
pub struct GameView {
    pub board: Seq<Row>,
    pub piece: Option<PieceView>,
    pub score: int,
    pub phase: Phase,
    pub timers: Timers,
}

/// A well-formed game: the board has its size, the score fits in a `u64`,
/// and unless the game is over there is a falling piece. A falling piece is
/// well-formed, lies on the board and overlaps no locked cell.
pub open spec fn game_wf(g: GameView) -> bool {
    &&& rows_wf(g.board)
    &&& 0 <= g.score <= u64::MAX
    &&& g.phase != Phase::GameOver ==> g.piece is Some
    &&& g.piece is Some ==> piece_wf(g.piece->0) && fits(g.board, piece_cells(g.piece->0))
}

/// A fresh game on `board`, before any piece is placed.
pub open spec fn initial(board: Seq<Row>) -> GameView {
    GameView {
        board,
        piece: None,
        score: 0,
        phase: Phase::Playing,
        timers: Timers { gravity_ms: 0, lateral_ms: 0 },
    }
}

/// The game after `p` is placed as the falling piece: where some cell of it
/// is off the board or already locked, the game is over instead.
pub open spec fn with_piece(g: GameView, p: PieceView) -> GameView {
    if fits(g.board, piece_cells(p)) {
        GameView { piece: Some(p), ..g }
    } else {
        GameView { piece: None, phase: Phase::GameOver, ..g }
    }
}

/// The score after clearing `rows` rows, saturating at `u64::MAX`.
pub open spec fn score_after(score: int, rows: int) -> int {
    if score + SCORE_INCREMENT * rows > u64::MAX {
        u64::MAX as int
    } else {
        score + SCORE_INCREMENT * rows
    }
}

/// The board after the falling piece locks and the full rows are cleared.
pub open spec fn board_after_lock(g: GameView) -> Seq<Row> {
    compacted(lock_cells(g.board, piece_cells(g.piece->0), g.piece->0.color))
}

/// The game after a gravity tick. A piece that can drop, drops one row. One
/// that cannot ends the game if its anchor is the spawn origin; otherwise it
/// locks, full rows are cleared and scored, and a new piece of shape `shape`
/// and colour `color` is placed.
pub open spec fn after_tick(g: GameView, shape: nat, color: Color) -> GameView {
    let p = g.piece->0;
    if can_fall(g.board, p) {
        GameView { piece: Some(moved(p, 0, -1)), ..g }
    } else if p.x == SPAWN_X && p.y == SPAWN_Y {
        GameView { phase: Phase::GameOver, ..g }
    } else {
        let locked = lock_cells(g.board, piece_cells(p), p.color);
        with_piece(
            GameView {
                board: compacted(locked),
                score: score_after(g.score, full_row_count(locked)),
                piece: None,
                ..g
            },
            spawned(shape, color),
        )
    }
}

/// What a gravity tick reports.
pub open spec fn tick_outcome(g: GameView, shape: nat, color: Color) -> TickOutcome {
    let p = g.piece->0;
    if can_fall(g.board, p) {
        TickOutcome::Fell
    } else if after_tick(g, shape, color).phase == Phase::GameOver {
        TickOutcome::GameOver
    } else {
        TickOutcome::Locked
    }
}

/// Whether the falling piece, moved `dir` columns, lies on the board clear of
/// locked cells.
pub open spec fn shift_fits(g: GameView, dir: int) -> bool {
    let p = g.piece->0;
    dir != 0 && fits(g.board, cells_at(p.offsets, p.x + dir, p.y))
}

/// The game after a move of `dir` columns: all or nothing.
pub open spec fn after_shift(g: GameView, dir: int) -> GameView {
    if shift_fits(g, dir) {
        GameView { piece: Some(moved(g.piece->0, dir, 0)), ..g }
    } else {
        g
    }
}

/// Whether the falling piece, turned a quarter turn, lies on the board clear
/// of locked cells.
pub open spec fn turn_fits(g: GameView) -> bool {
    fits(g.board, piece_cells(turned_piece(g.piece->0)))
}

/// The game after a quarter turn: refused where the turned piece would leave
/// the board or overlap a locked cell.
pub open spec fn after_turn(g: GameView) -> GameView {
    if turn_fits(g) {
        GameView { piece: Some(turned_piece(g.piece->0)), ..g }
    } else {
        g
    }
}

/// The game after the pause key: playing and paused swap.
pub open spec fn after_pause_key(g: GameView) -> GameView {
    GameView {
        phase: if g.phase == Phase::Playing {
            Phase::Paused
        } else {
            Phase::Playing
        },
        ..g
    }
}

/// The game after one frame, in this order: the pause key; nothing more while
/// paused; the timers run; a gravity tick; a move to the side; a quarter turn.
/// Once the game is over, frames change nothing.
pub open spec fn after_frame(g: GameView, input: FrameInput, shape: nat, color: Color) -> GameView {
    if g.phase == Phase::GameOver {
        g
    } else {
        let g1 = if input.pause {
            after_pause_key(g)
        } else {
            g
        };
        if g1.phase == Phase::Paused {
            g1
        } else {
            let c = commands_for(g1.timers, input);
            let g2 = GameView { timers: timers_after(g1.timers, input), ..g1 };
            let g3 = if c.tick_down {
                after_tick(g2, shape, color)
            } else {
                g2
            };
            let g4 = if g3.phase == Phase::Playing {
                after_shift(g3, c.lateral as int)
            } else {
                g3
            };
            if g4.phase == Phase::Playing && c.rotate {
                after_turn(g4)
            } else {
                g4
            }
        }
    }
}

/// The whole simulation state: the board, the falling piece, the score, the
/// phase and the two timers.
pub struct Game {
    board: Board,
    piece: Option<Piece>,
    score: u64,
    phase: Phase,
    timers: Timers,
}

impl View for Game {
    type V = GameView;

    closed spec fn view(&self) -> GameView {
        GameView {
            board: self.board@,
            piece: match self.piece {
                Some(p) => Some(p@),
                None => None,
            },
            score: self.score as int,
            phase: self.phase,
            timers: self.timers,
        }
    }
}

impl Game {
    pub open spec fn wf(&self) -> bool {
        game_wf(self@)
    }

    /// A game on `board` with `piece` falling; over at once where the piece
    /// does not fit.
    pub fn from_parts(board: Board, piece: Piece) -> (r: Game)
        requires
            board.wf(),
            piece_wf(piece@),
        ensures
            r.wf(),
            r@ == with_piece(initial(board@), piece@),
    {
        let mut g = Game {
            board,
            piece: None,
            score: 0,
            phase: Phase::Playing,
            timers: Timers::new(),
        };
        g.place(piece);
        g
    }

    /// A game on an empty board with a piece of shape `shape` and colour
    /// `color` at the spawn origin.
    pub fn new(shape: usize, color: Color) -> (r: Game)
        requires
            shape < SHAPE_COUNT,
        ensures
            r.wf(),
            r@ == with_piece(initial(empty_board()), spawned(shape as nat, color)),
            r@.phase == Phase::Playing,
            r@.piece == Some(spawned(shape as nat, color)),
    {
        proof {
            lemma_spawn_fits_empty_board(shape as nat, color);
        }
        Self::from_parts(Board::new(), Piece::spawn(shape, color))
    }

    /// Makes `p` the falling piece, or ends the game where it does not fit.
    fn place(&mut self, p: Piece)
        requires
            old(self).board.wf(),
            old(self).piece is None,
            0 <= old(self).score <= u64::MAX,
            piece_wf(p@),
        ensures
            final(self).wf(),
            final(self)@ == with_piece(old(self)@, p@),
    {
        if p.fits_moved(&self.board, 0, 0) {
            proof {
                assert(cells_at(p@.offsets, p@.x + 0, p@.y + 0) =~= piece_cells(p@));
            }
            self.piece = Some(p);
        } else {
            proof {
                assert(cells_at(p@.offsets, p@.x + 0, p@.y + 0) =~= piece_cells(p@));
            }
            self.phase = Phase::GameOver;
        }
    }

    /// One gravity tick: the piece drops one row, or it stops. A piece that
    /// stops with its anchor at the spawn origin ends the game; any other
    /// locks into the board, full rows are cleared and scored, and a new piece
    /// of shape `shape` and colour `color` is placed at the spawn origin.
    pub fn tick_down(&mut self, shape: usize, color: Color) -> (r: TickOutcome)
        requires
            old(self).wf(),
            old(self)@.phase == Phase::Playing,
            shape < SHAPE_COUNT,
        ensures
            final(self).wf(),
            final(self)@ == after_tick(old(self)@, shape as nat, color),
            r == tick_outcome(old(self)@, shape as nat, color),
    {
        let p = self.piece.take().unwrap();
        if p.can_fall(&self.board) {
            let q = Piece {
                shape: p.shape,
                rotation: p.rotation,
                x: p.x,
                y: p.y - 1,
                offsets: p.offsets,
                color: p.color,
            };
            proof {
                let cells = piece_cells(q@);
                assert forall|i: int| 0 <= i < cells.len() implies crate::board::in_bounds(
                    (#[trigger] cells[i]).0,
                    cells[i].1,
                ) && !crate::board::occupied(self.board@, cells[i].0, cells[i].1) by {
                    assert(piece_cells(p@)[i] == (cells[i].0, cells[i].1 + 1));
                }
                assert(cells[0] == (q@.x, q@.y));
                assert(q@ == moved(p@, 0, -1));
            }
            self.piece = Some(q);
            TickOutcome::Fell
        } else if p.x == SPAWN_X && p.y == SPAWN_Y {
            self.piece = Some(p);
            self.phase = Phase::GameOver;
            TickOutcome::GameOver
        } else {
            p.lock_into(&mut self.board);
            let n = self.board.clear_full_rows();
            assert(n <= crate::config::BOARD_HEIGHT);
            self.score = self.score.saturating_add(SCORE_INCREMENT * n);
            self.place(Piece::spawn(shape, color));
            if self.phase == Phase::GameOver {
                TickOutcome::GameOver
            } else {
                TickOutcome::Locked
            }
        }
    }

    /// Moves the falling piece `dir` columns (`-1` left, `1` right). The move
    /// is all or nothing: refused, with no change, where any moved cell would
    /// cross a wall or land on a locked cell. Returns whether it was made.
    pub fn move_sideways(&mut self, dir: i64) -> (r: bool)
        requires
            old(self).wf(),
            old(self)@.phase == Phase::Playing,
            -1 <= dir <= 1,
        ensures
            final(self).wf(),
            final(self)@ == after_shift(old(self)@, dir as int),
            r == shift_fits(old(self)@, dir as int),
            r ==> forall|i: int|
                0 <= i < piece_cells(final(self)@.piece->0).len() ==> -HALF_WIDTH <= (
                #[trigger] piece_cells(final(self)@.piece->0)[i]).0 < HALF_WIDTH,
    {
        if dir == 0 {
            return false;
        }
        let p = self.piece.take().unwrap();
        if p.fits_moved(&self.board, dir, 0) {
            let q = Piece {
                shape: p.shape,
                rotation: p.rotation,
                x: p.x + dir,
                y: p.y,
                offsets: p.offsets,
                color: p.color,
            };
            proof {
                assert(cells_at(p@.offsets, p@.x + dir, p@.y + 0) =~= piece_cells(q@));
                assert(piece_cells(q@)[0] == (q@.x, q@.y));
                assert(q@ == moved(p@, dir as int, 0));
            }
            self.piece = Some(q);
            true
        } else {
            proof {
                assert(cells_at(p@.offsets, p@.x + dir, p@.y + 0) =~= cells_at(
                    p@.offsets,
                    p@.x + dir,
                    p@.y,
                ));
            }
            self.piece = Some(p);
            false
        }
    }

    /// Turns the falling piece a quarter turn about its anchor; refused, with
    /// no change, where a turned cell would leave the board or land on a
    /// locked cell. Returns whether it was made.
    pub fn rotate(&mut self) -> (r: bool)
        requires
            old(self).wf(),
            old(self)@.phase == Phase::Playing,
        ensures
            final(self).wf(),
            final(self)@ == after_turn(old(self)@),
            r == turn_fits(old(self)@),
    {
        let p = self.piece.take().unwrap();
        let t = p.turned();
        if t.fits_moved(&self.board, 0, 0) {
            proof {
                assert(cells_at(t@.offsets, t@.x + 0, t@.y + 0) =~= piece_cells(t@));
            }
            self.piece = Some(t);
            true
        } else {
            proof {
                assert(cells_at(t@.offsets, t@.x + 0, t@.y + 0) =~= piece_cells(t@));
            }
            self.piece = Some(p);
            false
        }
    }

    /// The pause key: a playing game pauses, a paused one resumes.
    pub fn toggle_pause(&mut self)
        requires
            old(self).wf(),
            old(self)@.phase != Phase::GameOver,
        ensures
            final(self).wf(),
            final(self)@ == after_pause_key(old(self)@),
    {
        self.phase = if self.phase == Phase::Playing {
            Phase::Paused
        } else {
            Phase::Playing
        };
    }

    /// Runs one frame: the pause key first; then, unless paused, the timers,
    /// a gravity tick when the gravity timer fires (a new piece, if one is
    /// needed, has shape `shape` and colour `color`), a move to the side when
    /// the lateral timer fires, and a quarter turn when the turn key was
    /// pressed. A game that is over stays as it is.
    pub fn frame(&mut self, input: &FrameInput, shape: usize, color: Color)
        requires
            old(self).wf(),
            shape < SHAPE_COUNT,
        ensures
            final(self).wf(),
            final(self)@ == after_frame(old(self)@, *input, shape as nat, color),
    {
        if self.phase == Phase::GameOver {
            return;
        }
        if input.pause {
            self.toggle_pause();
        }
        if self.phase == Phase::Paused {
            return;
        }
        let c = self.timers.advance(input);
        if c.tick_down {
            self.tick_down(shape, color);
        }
        if self.phase == Phase::Playing {
            self.move_sideways(c.lateral);
        }
        if self.phase == Phase::Playing && c.rotate {
            self.rotate();
        }
    }

    /// Runs one frame as `frame` does, with the shape of a new piece drawn
    /// from the catalog and its colour drawn at random.
    pub fn frame_random(&mut self, input: &FrameInput)
        requires
            old(self).wf(),
        ensures
            final(self).wf(),
            exists|shape: nat, color: Color|
                shape < SHAPE_COUNT && final(self)@ == after_frame(old(self)@, *input, shape, color),
    {
        let shape = random_below(SHAPE_COUNT as u64) as usize;
        let color = random_color();
        self.frame(input, shape, color);
    }

    /// A game on an empty board with a piece of a random catalog shape and a
    /// random colour at the spawn origin.
    pub fn new_random() -> (r: Game)
        ensures
            r.wf(),
            r@.phase == Phase::Playing,
            exists|shape: nat, color: Color|
                shape < SHAPE_COUNT && r@ == with_piece(initial(empty_board()), spawned(shape, color)),
    {
        let shape = random_below(SHAPE_COUNT as u64) as usize;
        let color = random_color();
        Self::new(shape, color)
    }

    /// The score.
    pub fn score(&self) -> (r: u64)
        ensures
            r == self@.score,
    {
        self.score
    }

    /// The phase.
    pub fn phase(&self) -> (r: Phase)
        ensures
            r == self@.phase,
    {
        self.phase
    }

    /// The board of locked cells.
    pub fn board(&self) -> (r: &Board)
        ensures
            r@ == self@.board,
    {
        &self.board
    }

    /// The timers.
    pub fn timers(&self) -> (r: Timers)
        ensures
            r == self@.timers,
    {
        self.timers
    }

    /// The anchor of the falling piece, if there is one.
    pub fn piece_anchor(&self) -> (r: Option<Point>)
        ensures
            self@.piece is None ==> r is None,
            self@.piece is Some ==> r == Some(
                Point { x: self@.piece->0.x as i64, y: self@.piece->0.y as i64 },
            ),
    {
        match &self.piece {
            Some(p) => Some(Point { x: p.x, y: p.y }),
            None => None,
        }
    }

    /// The colour of the falling piece, if there is one.
    pub fn piece_color(&self) -> (r: Option<Color>)
        ensures
            self@.piece is None ==> r is None,
            self@.piece is Some ==> r == Some(self@.piece->0.color),
    {
        match &self.piece {
            Some(p) => Some(p.color),
            None => None,
        }
    }

    /// The board cells the falling piece covers; none if there is no piece.
    pub fn piece_cells(&self) -> (r: Vec<Point>)
        requires
            self.wf(),
        ensures
            self@.piece is None ==> r@.len() == 0,
            self@.piece is Some ==> r@.len() == piece_cells(self@.piece->0).len() && forall|i: int|
                0 <= i < r@.len() ==> (#[trigger] r@[i]).x == piece_cells(self@.piece->0)[i].0
                    && r@[i].y == piece_cells(self@.piece->0)[i].1,
    {
        match &self.piece {
            Some(p) => p.cells(),
            None => Vec::new(),
        }
    }
}

/// A colour drawn at random, each channel below 100.
pub fn random_color() -> (r: Color)
    ensures
        r.red < 100,
        r.green < 100,
        r.blue < 100,
{
    let red = random_below(100) as u8;
    let green = random_below(100) as u8;
    let blue = random_below(100) as u8;
    Color { red, green, blue }
}

/// Every catalog shape fits at the spawn origin of an empty board.
pub proof fn lemma_spawn_fits_empty_board(shape: nat, color: Color)
    requires
        shape < SHAPE_COUNT,
    ensures
        fits(empty_board(), piece_cells(spawned(shape, color))),
{
    let cells = piece_cells(spawned(shape, color));
    assert forall|i: int| 0 <= i < cells.len() implies crate::board::in_bounds(
        (#[trigger] cells[i]).0,
        cells[i].1,
    ) && !crate::board::occupied(empty_board(), cells[i].0, cells[i].1) by {
        assert(crate::shapes::offset_ok(crate::shapes::shape_cells(shape as int)[i]));
    }
}

/// A gravity tick moves locked cells only by clearing rows. Where the piece
/// drops or the game ends, the board is unchanged. Where the piece locks, a
/// cell locked before stays locked with its colour; unless its row is then
/// full and cleared, it ends up `d` rows lower in the same column, `d` being
/// the number of full rows below it, and never higher.
pub proof fn law_tick_moves_locked_cells_only_down(
    g: GameView,
    shape: nat,
    color: Color,
    x: int,
    y: int,
)
    requires
        game_wf(g),
        g.phase == Phase::Playing,
        shape < SHAPE_COUNT,
        in_bounds(x, y),
        cell_at(g.board, x, y) is Some,
    ensures
        ({
            let p = g.piece->0;
            let locked = lock_cells(g.board, piece_cells(p), p.color);
            let after = after_tick(g, shape, color);
            let r = row_index(y);
            let d = full_row_count(locked.take(r));
            ||| after.board == g.board
            ||| {
                &&& after.board == compacted(locked)
                &&& cell_at(locked, x, y) == cell_at(g.board, x, y)
                &&& (row_full(locked[r]) || (0 <= d <= r && cell_at(after.board, x, y - d)
                    == cell_at(g.board, x, y)))
            }
        }),
{
    let p = g.piece->0;
    let cells = piece_cells(p);
    let locked = lock_cells(g.board, cells, p.color);
    if !can_fall(g.board, p) && !(p.x == SPAWN_X && p.y == SPAWN_Y) {
        assert forall|i: int| 0 <= i < cells.len() implies #[trigger] cells[i] != (x, y) && in_bounds(
            cells[i].0,
            cells[i].1,
        ) by {
            assert(!occupied(g.board, cells[i].0, cells[i].1));
        }
        lemma_lock_cells_keeps(g.board, cells, p.color, x, y);
        let r = row_index(y);
        if !row_full(locked[r]) {
            law_compaction_only_lowers(locked, r);
        }
    }
}

/// Locking cells leaves every other cell of the board as it was.
proof fn lemma_lock_cells_keeps(rows: Seq<Row>, cells: Seq<(int, int)>, color: Color, x: int, y: int)
    requires
        rows_wf(rows),
        in_bounds(x, y),
        forall|i: int|
            0 <= i < cells.len() ==> #[trigger] cells[i] != (x, y) && in_bounds(cells[i].0, cells[i].1),
    ensures
        rows_wf(lock_cells(rows, cells, color)),
        cell_at(lock_cells(rows, cells, color), x, y) == cell_at(rows, x, y),
    decreases cells.len(),
{
    if cells.len() > 0 {
        let rest = cells.drop_last();
        assert forall|i: int| 0 <= i < rest.len() implies #[trigger] rest[i] != (x, y) && in_bounds(
            rest[i].0,
            rest[i].1,
        ) by {
            assert(rest[i] == cells[i]);
        }
        lemma_lock_cells_keeps(rows, rest, color, x, y);
        assert(cells.last() == cells[cells.len() - 1]);
    }
}

} // verus!
