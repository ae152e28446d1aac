//! Simulation core of a falling-block puzzle game: the board of locked cells,
//! the falling piece, gravity and lateral timing, collisions, line clears,
//! scoring and game over.
pub mod config;
pub mod board;
pub mod shapes;
pub mod piece;
pub mod schedule;
mod rng;
pub mod game;

pub use config::{
    BOARD_HEIGHT, BOARD_WIDTH, GRAVITY_PERIOD_MS, HALF_HEIGHT, HALF_WIDTH, LATERAL_PERIOD_MS,
    SCORE_INCREMENT, SOFT_DROP_MULTIPLIER, SPAWN_X, SPAWN_Y,
};
pub use board::{Board, Color};
pub use game::{random_color, Game, Phase, TickOutcome};
pub use piece::{fits_offsets, Piece};
pub use schedule::{Commands, FrameInput, Timers};
pub use shapes::{shape_offsets, turn_offsets, Point, SHAPE_COUNT};
