use tetris::{FrameInput, Timers, GRAVITY_PERIOD_MS, LATERAL_PERIOD_MS};

fn input(elapsed_ms: u64, soft_drop: bool) -> FrameInput {
    FrameInput { elapsed_ms, left: false, right: false, soft_drop, rotate: false, pause: false }
}

fn frames_until_tick(soft_drop: bool, frame_ms: u64) -> u32 {
    let mut timers = Timers::new();
    for frame in 1..=1000 {
        if timers.advance(&input(frame_ms, soft_drop)).tick_down {
            return frame;
        }
    }
    panic!("no gravity tick");
}

#[test]
fn soft_drop_reaches_tick_sooner() {
    let plain = frames_until_tick(false, 100);
    let held = frames_until_tick(true, 100);
    assert_eq!(plain, 10);
    assert_eq!(held, 1);
    assert!(held < plain);
    let plain = frames_until_tick(false, 16);
    let held = frames_until_tick(true, 16);
    assert_eq!(plain, 63);
    assert_eq!(held, 3);
}

#[test]
fn gravity_timer_resets_when_it_fires() {
    let mut timers = Timers::new();
    let c = timers.advance(&input(GRAVITY_PERIOD_MS - 1, false));
    assert!(!c.tick_down);
    assert_eq!(timers.gravity_ms, GRAVITY_PERIOD_MS - 1);
    let c = timers.advance(&input(1, false));
    assert!(c.tick_down);
    assert_eq!(timers.gravity_ms, 0);
}

#[test]
fn huge_frame_saturates_instead_of_overflowing() {
    let mut timers = Timers { gravity_ms: 10, lateral_ms: 10 };
    let c = timers.advance(&input(u64::MAX, true));
    assert!(c.tick_down);
    assert_eq!(timers.gravity_ms, 0);
    assert_eq!(timers.lateral_ms, 0);
}

#[test]
fn lateral_direction_read_when_timer_fires() {
    let mut timers = Timers::new();
    let held_right = FrameInput { elapsed_ms: LATERAL_PERIOD_MS, left: false, right: true, soft_drop: false, rotate: false, pause: false };
    assert_eq!(timers.advance(&held_right).lateral, 1);
    let held_left = FrameInput { left: true, right: false, ..held_right };
    assert_eq!(timers.advance(&held_left).lateral, -1);
    let both = FrameInput { left: true, right: true, ..held_right };
    assert_eq!(timers.advance(&both).lateral, 0);
    let short = FrameInput { elapsed_ms: 10, ..held_right };
    assert_eq!(timers.advance(&short).lateral, 0);
    assert_eq!(timers.lateral_ms, 10);
}

#[test]
fn rotate_edge_passes_through() {
    let mut timers = Timers::new();
    let c = timers.advance(&FrameInput { elapsed_ms: 1, left: false, right: false, soft_drop: false, rotate: true, pause: false });
    assert!(c.rotate);
    assert!(!c.tick_down);
}
