use vstd::prelude::*;

verus! {

/// Number of columns of the board.
pub const BOARD_WIDTH: i64 = 10;

/// Number of rows of the board.
pub const BOARD_HEIGHT: i64 = 20;

/// Columns run from `-HALF_WIDTH` (inclusive) to `HALF_WIDTH` (exclusive).
pub const HALF_WIDTH: i64 = 5;

/// Rows run from `-HALF_HEIGHT` (the floor row) to `HALF_HEIGHT` (exclusive).
pub const HALF_HEIGHT: i64 = 10;

/// Column of the cell where every new piece is anchored.
pub const SPAWN_X: i64 = 0;

/// Row of the cell where every new piece is anchored: two rows below the top,
/// so that every shape in every turn lies on the board.
pub const SPAWN_Y: i64 = 8;

/// Gravity period: one drop per second.
pub const GRAVITY_PERIOD_MS: u64 = 1000;

/// While soft drop is held, the gravity timer runs this many times faster.
pub const SOFT_DROP_MULTIPLIER: u64 = 25;

/// Lateral repeat period: a move to the side may happen every 40 ms.
pub const LATERAL_PERIOD_MS: u64 = 40;

/// Points added for each cleared row.
pub const SCORE_INCREMENT: u64 = 100;

} // verus!
