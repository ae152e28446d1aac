use vstd::prelude::*;

use crate::config::{BOARD_HEIGHT, BOARD_WIDTH, HALF_HEIGHT, HALF_WIDTH};

verus! {

/// Colour of a block, each channel in percent (0 to 99).
#[derive(Clone, Copy, Debug, PartialEq, Eq, Structural)]
pub struct Color {
    pub red: u8,
    pub green: u8,
    pub blue: u8,
}

/// One row of the board, column `0` being the leftmost (`x == -HALF_WIDTH`).
pub type Row = Seq<Option<Color>>;

/// A row with no locked cell.
pub open spec fn empty_row() -> Row {
    Seq::new(BOARD_WIDTH as nat, |i: int| None::<Color>)
}

/// A board with no locked cell.
pub open spec fn empty_board() -> Seq<Row> {
    Seq::new(BOARD_HEIGHT as nat, |i: int| empty_row())
}

/// Every cell of the row is locked.
pub open spec fn row_full(row: Row) -> bool {
    forall|i: int| 0 <= i < row.len() ==> (#[trigger] row[i]) is Some
}

/// The board has `BOARD_HEIGHT` rows of `BOARD_WIDTH` cells each.
pub open spec fn rows_wf(rows: Seq<Row>) -> bool {
    &&& rows.len() == BOARD_HEIGHT
    &&& forall|i: int| 0 <= i < rows.len() ==> (#[trigger] rows[i]).len() == BOARD_WIDTH
}

/// A cell lies between both walls, on or above the floor and below the top.
pub open spec fn in_bounds(x: int, y: int) -> bool {
    -HALF_WIDTH <= x < HALF_WIDTH && -HALF_HEIGHT <= y < HALF_HEIGHT
}

/// Index in the row sequence of the row at height `y`.
pub open spec fn row_index(y: int) -> int {
    y + HALF_HEIGHT
}

/// Index within a row of the column at `x`.
pub open spec fn col_index(x: int) -> int {
    x + HALF_WIDTH
}

/// What the board holds at `(x, y)`.
pub open spec fn cell_at(rows: Seq<Row>, x: int, y: int) -> Option<Color> {
    rows[row_index(y)][col_index(x)]
}

/// The cell `(x, y)` is on the board and locked.
pub open spec fn occupied(rows: Seq<Row>, x: int, y: int) -> bool {
    in_bounds(x, y) && cell_at(rows, x, y) is Some
}

/// The board after locking `(x, y)` with `color`.
pub open spec fn with_locked(rows: Seq<Row>, x: int, y: int, color: Color) -> Seq<Row> {
    rows.update(row_index(y), rows[row_index(y)].update(col_index(x), Some(color)))
}

/// The board after removing the row at index `r`: every row above it moves
/// down by one and an empty row enters at the top.
pub open spec fn after_clear(rows: Seq<Row>, r: int) -> Seq<Row> {
    rows.remove(r).push(empty_row())
}

/// The rows that are not full, bottom to top, in their order on the board.
pub open spec fn surviving_rows(rows: Seq<Row>) -> Seq<Row>
    decreases rows.len(),
{
    if rows.len() == 0 {
        rows
    } else {
        let below = surviving_rows(rows.drop_last());
        if row_full(rows.last()) {
            below
        } else {
            below.push(rows.last())
        }
    }
}

/// Number of full rows on the board.
pub open spec fn full_row_count(rows: Seq<Row>) -> int {
    rows.len() - surviving_rows(rows).len()
}

/// The board after every full row has been cleared: the other rows keep their
/// order and settle at the bottom, with empty rows above them.
pub open spec fn compacted(rows: Seq<Row>) -> Seq<Row> {
    surviving_rows(rows) + Seq::new(full_row_count(rows) as nat, |i: int| empty_row())
}

/// The playfield: a `BOARD_WIDTH` by `BOARD_HEIGHT` grid of cells, each empty
/// or locked with a colour. Coordinates are centred: `x` runs over
/// `[-HALF_WIDTH, HALF_WIDTH)` and `y` over `[-HALF_HEIGHT, HALF_HEIGHT)`.
pub struct Board {
    rows: Vec<Vec<Option<Color>>>,
}

impl View for Board {
    type V = Seq<Row>;

    closed spec fn view(&self) -> Seq<Row> {
        Seq::new(self.rows@.len(), |i: int| self.rows@[i]@)
    }
}

impl Board {
    pub open spec fn wf(&self) -> bool {
        rows_wf(self@)
    }

    /// An empty board.
    pub fn new() -> (r: Board)
        ensures
            r.wf(),
            r@ == empty_board(),
    {
        let mut rows: Vec<Vec<Option<Color>>> = Vec::new();
        let mut i: i64 = 0;
        while i < BOARD_HEIGHT
            invariant
                0 <= i <= BOARD_HEIGHT,
                rows@.len() == i,
                forall|k: int| 0 <= k < i ==> (#[trigger] rows@[k])@ == empty_row(),
            decreases BOARD_HEIGHT - i,
        {
            rows.push(Self::new_empty_row());
            i = i + 1;
        }
        let r = Board { rows };
        assert(r@ =~= empty_board());
        r
    }

    fn new_empty_row() -> (r: Vec<Option<Color>>)
        ensures
            r@ == empty_row(),
    {
        let mut row: Vec<Option<Color>> = Vec::new();
        let mut j: i64 = 0;
        while j < BOARD_WIDTH
            invariant
                0 <= j <= BOARD_WIDTH,
                row@.len() == j,
                forall|k: int| 0 <= k < j ==> (#[trigger] row@[k]) is None,
            decreases BOARD_WIDTH - j,
        {
            row.push(None);
            j = j + 1;
        }
        assert(row@ =~= empty_row());
        row
    }

    /// Whether `(x, y)` lies on the board.
    pub fn is_inside(x: i64, y: i64) -> (r: bool)
        ensures
            r == in_bounds(x as int, y as int),
    {
        -HALF_WIDTH <= x && x < HALF_WIDTH && -HALF_HEIGHT <= y && y < HALF_HEIGHT
    }

    /// What the board holds at `(x, y)`; `None` off the board.
    pub fn get(&self, x: i64, y: i64) -> (r: Option<Color>)
        requires
            self.wf(),
        ensures
            in_bounds(x as int, y as int) ==> r == cell_at(self@, x as int, y as int),
            !in_bounds(x as int, y as int) ==> r is None,
    {
        if Self::is_inside(x, y) {
            let r = (y + HALF_HEIGHT) as usize;
            let c = (x + HALF_WIDTH) as usize;
            assert(self.rows@[r as int]@ == self@[r as int]);
            self.rows[r][c]
        } else {
            None
        }
    }

    /// Whether `(x, y)` is on the board and locked.
    pub fn is_occupied(&self, x: i64, y: i64) -> (r: bool)
        requires
            self.wf(),
        ensures
            r == occupied(self@, x as int, y as int),
    {
        self.get(x, y).is_some()
    }

    /// Locks `(x, y)` with `color`; a cell already locked takes the new colour.
    pub fn lock(&mut self, x: i64, y: i64, color: Color)
        requires
            old(self).wf(),
            in_bounds(x as int, y as int),
        ensures
            final(self).wf(),
            final(self)@ == with_locked(old(self)@, x as int, y as int, color),
    {
        let r = (y + HALF_HEIGHT) as usize;
        let c = (x + HALF_WIDTH) as usize;
        proof {
            assert(self.rows@[r as int]@ == self@[r as int]);
        }
        let mut row = self.rows.remove(r);
        row.set(c, Some(color));
        self.rows.insert(r, row);
        proof {
            let want = with_locked(old(self)@, x as int, y as int, color);
            assert forall|i: int| 0 <= i < self@.len() implies self@[i] == want[i] by {
                if i != r as int {
                    assert(self.rows@[i] == old(self).rows@[i]);
                }
            }
            assert(self@ =~= want);
        }
    }

    /// Whether every cell of the row at height `y` is locked.
    pub fn is_row_full(&self, y: i64) -> (r: bool)
        requires
            self.wf(),
            -HALF_HEIGHT <= y < HALF_HEIGHT,
        ensures
            r == row_full(self@[row_index(y as int)]),
    {
        let ri = (y + HALF_HEIGHT) as usize;
        proof {
            assert(self.rows@[ri as int]@ == self@[ri as int]);
        }
        let row = &self.rows[ri];
        let mut c: usize = 0;
        while c < row.len()
            invariant
                self.wf(),
                ri == row_index(y as int),
                0 <= ri < BOARD_HEIGHT,
                row@ == self@[ri as int],
                row@.len() == BOARD_WIDTH,
                0 <= c <= row@.len(),
                forall|k: int| 0 <= k < c ==> (#[trigger] row@[k]) is Some,
            decreases row@.len() - c,
        {
            if row[c].is_none() {
                assert(row@[c as int] is None);
                return false;
            }
            c = c + 1;
        }
        true
    }

    /// Removes the row at height `y`: every row above it moves down by one and
    /// an empty row enters at the top; rows below `y` stay as they are.
    pub fn clear_row(&mut self, y: i64)
        requires
            old(self).wf(),
            -HALF_HEIGHT <= y < HALF_HEIGHT,
        ensures
            final(self).wf(),
            final(self)@ == after_clear(old(self)@, row_index(y as int)),
    {
        let r = (y + HALF_HEIGHT) as usize;
        self.rows.remove(r);
        let fresh = Self::new_empty_row();
        self.rows.push(fresh);
        proof {
            let want = after_clear(old(self)@, r as int);
            assert forall|i: int| 0 <= i < self@.len() implies self@[i] == want[i] by {
                if i < r {
                    assert(self.rows@[i] == old(self).rows@[i]);
                } else if i < BOARD_HEIGHT - 1 {
                    assert(self.rows@[i] == old(self).rows@[i + 1]);
                }
            }
            assert(self@ =~= want);
        }
    }

    /// Clears every full row, lowest first, and returns how many were cleared.
    /// The other rows keep their order and settle at the bottom.
    pub fn clear_full_rows(&mut self) -> (n: u64)
        requires
            old(self).wf(),
        ensures
            final(self).wf(),
            final(self)@ == compacted(old(self)@),
            n == full_row_count(old(self)@),
    {
        let ghost start = self@;
        let mut r: i64 = 0;
        let mut cleared: i64 = 0;
        while r + cleared < BOARD_HEIGHT
            invariant
                self.wf(),
                start.len() == BOARD_HEIGHT,
                0 <= r,
                0 <= cleared,
                r + cleared <= BOARD_HEIGHT,
                self@.subrange(0, r as int) == surviving_rows(start.take(r + cleared)),
                self@.subrange(r as int, BOARD_HEIGHT - cleared) == start.subrange(
                    r + cleared,
                    BOARD_HEIGHT as int,
                ),
                self@.subrange(BOARD_HEIGHT - cleared, BOARD_HEIGHT as int) == Seq::new(
                    cleared as nat,
                    |i: int| empty_row(),
                ),
            decreases BOARD_HEIGHT - r - cleared,
        {
            let ghost k = r + cleared;
            proof {
                lemma_surviving_step(start, k);
                assert(self@[r as int] == self@.subrange(r as int, BOARD_HEIGHT - cleared)[0]);
                assert(start.subrange(k, BOARD_HEIGHT as int)[0] == start[k]);
            }
            if self.is_row_full(r - HALF_HEIGHT) {
                let ghost before = self@;
                self.clear_row(r - HALF_HEIGHT);
                cleared = cleared + 1;
                proof {
                    assert(self@.subrange(0, r as int) =~= before.subrange(0, r as int));
                    assert(self@.subrange(r as int, BOARD_HEIGHT - cleared) =~= before.subrange(
                        r + 1,
                        BOARD_HEIGHT - cleared + 1,
                    ).subrange(0, BOARD_HEIGHT - cleared - r));
                    assert(start.subrange(r + cleared, BOARD_HEIGHT as int) =~= start.subrange(
                        k,
                        BOARD_HEIGHT as int,
                    ).subrange(1, BOARD_HEIGHT - k));
                    assert(self@.subrange(BOARD_HEIGHT - cleared, BOARD_HEIGHT as int) =~= Seq::new(
                        cleared as nat,
                        |i: int| empty_row(),
                    )) by {
                        assert forall|i: int|
                            BOARD_HEIGHT - cleared <= i < BOARD_HEIGHT - 1 implies #[trigger] self@[i]
                            == empty_row() by {
                            assert(self@[i] == before[i + 1]);
                            assert(before[i + 1] == before.subrange(
                                BOARD_HEIGHT - cleared + 1,
                                BOARD_HEIGHT as int,
                            )[i + 1 - (BOARD_HEIGHT - cleared + 1)]);
                        }
                    }
                }
            } else {
                let ghost before = self@;
                r = r + 1;
                proof {
                    assert(self@.subrange(0, r as int) =~= before.subrange(0, r - 1).push(before[r - 1]));
                    assert(self@.subrange(r as int, BOARD_HEIGHT - cleared) =~= before.subrange(
                        r - 1,
                        BOARD_HEIGHT - cleared,
                    ).subrange(1, BOARD_HEIGHT - cleared - r + 1));
                    assert(start.subrange(r + cleared, BOARD_HEIGHT as int) =~= start.subrange(
                        k,
                        BOARD_HEIGHT as int,
                    ).subrange(1, BOARD_HEIGHT - k));
                }
            }
        }
        proof {
            assert(start.take(BOARD_HEIGHT as int) =~= start);
            assert(self@ =~= self@.subrange(0, r as int) + self@.subrange(
                BOARD_HEIGHT - cleared,
                BOARD_HEIGHT as int,
            ));
        }
        cleared as u64
    }
}

/// One more row of the board decides whether it survives.
proof fn lemma_surviving_step(rows: Seq<Row>, k: int)
    requires
        0 <= k < rows.len(),
    ensures
        surviving_rows(rows.take(k + 1)) == if row_full(rows[k]) {
            surviving_rows(rows.take(k))
        } else {
            surviving_rows(rows.take(k)).push(rows[k])
        },
{
    assert(rows.take(k + 1).drop_last() =~= rows.take(k));
    assert(rows.take(k + 1).last() == rows[k]);
}

} // verus!

verus! {

/// Clearing a row leaves the rows below it unchanged, moves every row above it
/// down by exactly one, and leaves an empty row at the top.
pub proof fn law_clear_row_shifts_rows_above(rows: Seq<Row>, r: int)
    requires
        rows_wf(rows),
        0 <= r < BOARD_HEIGHT,
    ensures
        rows_wf(after_clear(rows, r)),
        forall|i: int| 0 <= i < r ==> #[trigger] after_clear(rows, r)[i] == rows[i],
        forall|i: int| r <= i < BOARD_HEIGHT - 1 ==> #[trigger] after_clear(rows, r)[i] == rows[i + 1],
        after_clear(rows, r)[BOARD_HEIGHT - 1] == empty_row(),
{
}

/// Filling a row with locked cells and then clearing it gives the board as it
/// was before, without that row.
pub proof fn law_fill_then_clear_row(rows: Seq<Row>, r: int, color: Color)
    requires
        rows_wf(rows),
        0 <= r < BOARD_HEIGHT,
    ensures
        row_full(Seq::new(BOARD_WIDTH as nat, |i: int| Some(color))),
        after_clear(rows.update(r, Seq::new(BOARD_WIDTH as nat, |i: int| Some(color))), r)
            == after_clear(rows, r),
{
    assert(after_clear(rows.update(r, Seq::new(BOARD_WIDTH as nat, |i: int| Some(color))), r)
        =~= after_clear(rows, r));
}

/// Where exactly one row is full, clearing the full rows removes that row
/// alone, and counts one row (so the score rises by one increment).
pub proof fn law_single_full_row_cleared_once(rows: Seq<Row>, r: int)
    requires
        rows_wf(rows),
        0 <= r < BOARD_HEIGHT,
        row_full(rows[r]),
        forall|i: int| 0 <= i < BOARD_HEIGHT && i != r ==> !row_full(#[trigger] rows[i]),
    ensures
        full_row_count(rows) == 1,
        compacted(rows) == after_clear(rows, r),
{
    lemma_survivors_single(rows, r, rows.len() as int);
    assert(rows.take(rows.len() as int) =~= rows);
    assert(rows.remove(r).len() == BOARD_HEIGHT - 1);
    assert(compacted(rows) =~= after_clear(rows, r));
}

proof fn lemma_survivors_single(rows: Seq<Row>, r: int, k: int)
    requires
        0 <= r < rows.len(),
        0 <= k <= rows.len(),
        row_full(rows[r]),
        forall|i: int| 0 <= i < rows.len() && i != r ==> !row_full(#[trigger] rows[i]),
    ensures
        k <= r ==> surviving_rows(rows.take(k)) == rows.take(k),
        k > r ==> surviving_rows(rows.take(k)) == rows.take(k).remove(r),
    decreases k,
{
    if k == 0 {
        assert(rows.take(0) =~= Seq::<Row>::empty());
    } else {
        lemma_survivors_single(rows, r, k - 1);
        lemma_surviving_step(rows, k - 1);
        if k - 1 == r {
            assert(rows.take(k).remove(r) =~= rows.take(k - 1));
        } else if k - 1 < r {
            assert(rows.take(k) =~= rows.take(k - 1).push(rows[k - 1]));
        } else {
            assert(rows.take(k).remove(r) =~= rows.take(k - 1).remove(r).push(rows[k - 1]));
        }
    }
}

/// Clearing full rows never lifts a row: a row that is not full keeps its
/// contents and lands `d` rows lower, `d` being the number of full rows below it.
pub proof fn law_compaction_only_lowers(rows: Seq<Row>, r: int)
    requires
        rows_wf(rows),
        0 <= r < BOARD_HEIGHT,
        !row_full(rows[r]),
    ensures
        ({
            let d = full_row_count(rows.take(r));
            &&& 0 <= d <= r
            &&& compacted(rows)[r - d] == rows[r]
        }),
{
    lemma_surviving_len(rows, r);
    lemma_surviving_step(rows, r);
    assert(rows.take(r).len() == r);
    lemma_surviving_prefix(rows, r + 1, rows.len() as int);
    assert(rows.take(rows.len() as int) =~= rows);
    let below = surviving_rows(rows.take(r));
    assert(surviving_rows(rows.take(r + 1))[below.len() as int] == rows[r]);
    assert(surviving_rows(rows)[below.len() as int] == rows[r]);
}

proof fn lemma_surviving_len(rows: Seq<Row>, k: int)
    requires
        0 <= k <= rows.len(),
    ensures
        surviving_rows(rows.take(k)).len() <= k,
    decreases k,
{
    if k > 0 {
        lemma_surviving_len(rows, k - 1);
        lemma_surviving_step(rows, k - 1);
    } else {
        assert(rows.take(0) =~= Seq::<Row>::empty());
    }
}

proof fn lemma_surviving_prefix(rows: Seq<Row>, j: int, k: int)
    requires
        0 <= j <= k <= rows.len(),
    ensures
        surviving_rows(rows.take(j)).len() <= surviving_rows(rows.take(k)).len(),
        surviving_rows(rows.take(k)).take(surviving_rows(rows.take(j)).len() as int)
            == surviving_rows(rows.take(j)),
    decreases k - j,
{
    if j == k {
        assert(surviving_rows(rows.take(k)).take(surviving_rows(rows.take(j)).len() as int)
            =~= surviving_rows(rows.take(j)));
    } else {
        lemma_surviving_prefix(rows, j, k - 1);
        lemma_surviving_step(rows, k - 1);
        let a = surviving_rows(rows.take(j));
        let b = surviving_rows(rows.take(k - 1));
        assert(b.push(rows[k - 1]).take(a.len() as int) =~= b.take(a.len() as int));
    }
}

} // verus!
