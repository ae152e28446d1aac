use vstd::prelude::*;

use crate::config::{GRAVITY_PERIOD_MS, LATERAL_PERIOD_MS, SOFT_DROP_MULTIPLIER};

verus! {

/// What the input layer samples once per frame: the time since the previous
/// frame, the keys held, and the keys pressed since the previous frame.
#[derive(Clone, Copy, Debug, PartialEq, Eq, Structural)]
pub struct FrameInput {
    pub elapsed_ms: u64,
    pub left: bool,
    pub right: bool,
    pub soft_drop: bool,
    pub rotate: bool,
    pub pause: bool,
}

/// The commands a frame issues: a gravity tick, a move to the side (`-1`
/// left, `1` right, `0` none), and a quarter turn.
#[derive(Clone, Copy, Debug, PartialEq, Eq, Structural)]
pub struct Commands {
    pub tick_down: bool,
    pub lateral: i64,
    pub rotate: bool,
}

/// The two accumulating timers, in milliseconds.
#[derive(Clone, Copy, Debug, PartialEq, Eq, Structural)]
pub struct Timers {
    pub gravity_ms: u64,
    pub lateral_ms: u64,
}

/// How far the gravity timer runs in a frame: `elapsed` times the soft-drop
/// multiplier while soft drop is held, saturating at `u64::MAX`.
pub open spec fn gravity_delta(elapsed: int, soft_drop: bool) -> int {
    if !soft_drop {
        elapsed
    } else if elapsed * SOFT_DROP_MULTIPLIER > u64::MAX {
        u64::MAX as int
    } else {
        elapsed * SOFT_DROP_MULTIPLIER
    }
}

/// A timer's value after running by `delta`, saturating at `u64::MAX`.
pub open spec fn accumulated(acc: int, delta: int) -> int {
    if acc + delta > u64::MAX {
        u64::MAX as int
    } else {
        acc + delta
    }
}

/// The timer reaches its period and fires.
pub open spec fn fires(acc: int, delta: int, period: int) -> bool {
    accumulated(acc, delta) >= period
}

/// A timer's value after a frame: back to zero when it fires.
pub open spec fn timer_after(acc: int, delta: int, period: int) -> int {
    if fires(acc, delta, period) {
        0
    } else {
        accumulated(acc, delta)
    }
}

/// The side to move to: right is `1`, left is `-1`, both or neither is `0`.
pub open spec fn direction(left: bool, right: bool) -> int {
    (if right {
        1int
    } else {
        0int
    }) - (if left {
        1int
    } else {
        0int
    })
}

/// The commands issued by a frame that is not paused.
pub open spec fn commands_for(t: Timers, input: FrameInput) -> Commands {
    Commands {
        tick_down: fires(
            t.gravity_ms as int,
            gravity_delta(input.elapsed_ms as int, input.soft_drop),
            GRAVITY_PERIOD_MS as int,
        ),
        lateral: if fires(t.lateral_ms as int, input.elapsed_ms as int, LATERAL_PERIOD_MS as int) {
            direction(input.left, input.right) as i64
        } else {
            0
        },
        rotate: input.rotate,
    }
}

/// The timers after a frame that is not paused.
pub open spec fn timers_after(t: Timers, input: FrameInput) -> Timers {
    Timers {
        gravity_ms: timer_after(
            t.gravity_ms as int,
            gravity_delta(input.elapsed_ms as int, input.soft_drop),
            GRAVITY_PERIOD_MS as int,
        ) as u64,
        lateral_ms: timer_after(
            t.lateral_ms as int,
            input.elapsed_ms as int,
            LATERAL_PERIOD_MS as int,
        ) as u64,
    }
}

/// Index of the first frame, among frames of the given lengths, at which the
/// gravity timer fires; the number of frames if it never does.
pub open spec fn first_gravity_tick(acc: int, frames: Seq<u64>, soft_drop: bool) -> nat
    decreases frames.len(),
{
    if frames.len() == 0 {
        0
    } else {
        let delta = gravity_delta(frames[0] as int, soft_drop);
        if fires(acc, delta, GRAVITY_PERIOD_MS as int) {
            0
        } else {
            1 + first_gravity_tick(
                accumulated(acc, delta),
                frames.subrange(1, frames.len() as int),
                soft_drop,
            )
        }
    }
}

/// Holding soft drop never makes the next gravity tick come later: from a
/// timer at least as far along, over the same frames, the held timer fires at
/// the same frame or earlier.
pub proof fn law_soft_drop_not_later(held: int, plain: int, frames: Seq<u64>)
    requires
        0 <= plain <= held <= u64::MAX,
    ensures
        first_gravity_tick(held, frames, true) <= first_gravity_tick(plain, frames, false),
    decreases frames.len(),
{
    if frames.len() > 0 {
        let e = frames[0] as int;
        assert(gravity_delta(e, true) >= gravity_delta(e, false)) by (nonlinear_arith)
            requires
                e >= 0,
                gravity_delta(e, false) == e,
                gravity_delta(e, true) == if e * SOFT_DROP_MULTIPLIER > u64::MAX {
                    u64::MAX as int
                } else {
                    e * SOFT_DROP_MULTIPLIER
                },
                e <= u64::MAX,
        ;
        law_soft_drop_not_later(
            accumulated(held, gravity_delta(e, true)),
            accumulated(plain, gravity_delta(e, false)),
            frames.subrange(1, frames.len() as int),
        );
    }
}

impl Timers {
    /// Both timers at zero.
    pub fn new() -> (r: Timers)
        ensures
            r.gravity_ms == 0,
            r.lateral_ms == 0,
    {
        Timers { gravity_ms: 0, lateral_ms: 0 }
    }

    /// Runs both timers through one frame that is not paused and returns the
    /// commands it issues. The gravity timer runs faster while soft drop is
    /// held; the side to move to is read when the lateral timer fires.
    pub fn advance(&mut self, input: &FrameInput) -> (c: Commands)
        ensures
            *final(self) == timers_after(*old(self), *input),
            c == commands_for(*old(self), *input),
    {
        let delta = if !input.soft_drop {
            input.elapsed_ms
        } else if input.elapsed_ms > u64::MAX / SOFT_DROP_MULTIPLIER {
            u64::MAX
        } else {
            input.elapsed_ms * SOFT_DROP_MULTIPLIER
        };
        let gravity = self.gravity_ms.saturating_add(delta);
        let tick_down = gravity >= GRAVITY_PERIOD_MS;
        self.gravity_ms = if tick_down {
            0
        } else {
            gravity
        };
        let sides = self.lateral_ms.saturating_add(input.elapsed_ms);
        let lateral_fires = sides >= LATERAL_PERIOD_MS;
        self.lateral_ms = if lateral_fires {
            0
        } else {
            sides
        };
        let lateral: i64 = if lateral_fires {
            (if input.right {
                1i64
            } else {
                0i64
            }) - (if input.left {
                1i64
            } else {
                0i64
            })
        } else {
            0
        };
        Commands { tick_down, lateral, rotate: input.rotate }
    }
}

} // verus!
