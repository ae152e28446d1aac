use tetris::{
    random_color, Board, Color, FrameInput, Game, Phase, Piece, Point, TickOutcome, HALF_HEIGHT,
    HALF_WIDTH, SCORE_INCREMENT, SPAWN_X, SPAWN_Y,
};

const GREEN: Color = Color { red: 10, green: 80, blue: 10 };
const GREY: Color = Color { red: 50, green: 50, blue: 50 };

fn single_cell(x: i64, y: i64) -> Piece {
    Piece { shape: 0, rotation: 0, x, y, offsets: vec![Point { x: 0, y: 0 }], color: GREEN }
}

fn idle(elapsed_ms: u64) -> FrameInput {
    FrameInput { elapsed_ms, left: false, right: false, soft_drop: false, rotate: false, pause: false }
}

#[test]
fn new_game_places_piece_at_spawn_origin() {
    let game = Game::new(2, GREEN);
    assert_eq!(game.phase(), Phase::Playing);
    assert_eq!(game.score(), 0);
    assert_eq!(game.piece_anchor(), Some(Point { x: SPAWN_X, y: SPAWN_Y }));
    assert_eq!(game.piece_color(), Some(GREEN));
    assert_eq!(
        game.piece_cells(),
        vec![Point { x: 0, y: 8 }, Point { x: -1, y: 8 }, Point { x: 1, y: 8 }, Point { x: 0, y: 7 }]
    );
}

#[test]
fn drop_to_floor_stops_at_lowest_row() {
    // shape 0 covers the anchor row, the row above and the row below
    let mut game = Game::new(0, GREEN);
    let mut falls = 0;
    loop {
        let cells = game.piece_cells();
        let lowest = cells.iter().map(|c| c.y).min().unwrap();
        match game.tick_down(1, GREY) {
            TickOutcome::Fell => {
                assert!(lowest - 1 >= -HALF_HEIGHT);
                falls += 1;
            }
            outcome => {
                assert_eq!(outcome, TickOutcome::Locked);
                assert_eq!(lowest, -10);
                break;
            }
        }
    }
    assert_eq!(falls, 17);
    let board = game.board();
    assert_eq!(board.get(0, -10), Some(GREEN));
    assert_eq!(board.get(0, -9), Some(GREEN));
    assert_eq!(board.get(0, -8), Some(GREEN));
    assert_eq!(board.get(-1, -8), Some(GREEN));
    assert_eq!(game.score(), 0);
    assert_eq!(game.phase(), Phase::Playing);
    // the next piece is the requested one, back at the spawn origin
    assert_eq!(game.piece_anchor(), Some(Point { x: SPAWN_X, y: SPAWN_Y }));
    assert_eq!(game.piece_color(), Some(GREY));
    assert_eq!(game.piece_cells().len(), 3);
}

#[test]
fn single_cell_into_gap_clears_one_row() {
    let mut board = Board::new();
    for x in -HALF_WIDTH..HALF_WIDTH {
        if x != 2 {
            board.lock(x, -10, GREY);
        }
    }
    board.lock(-4, -9, GREY);
    let mut game = Game::from_parts(board, single_cell(2, 0));
    assert_eq!(game.phase(), Phase::Playing);
    let mut outcome = game.tick_down(0, GREEN);
    while outcome == TickOutcome::Fell {
        outcome = game.tick_down(0, GREEN);
    }
    assert_eq!(outcome, TickOutcome::Locked);
    assert_eq!(game.score(), SCORE_INCREMENT);
    assert_eq!(game.score(), 100);
    let board = game.board();
    assert!(!board.is_row_full(-10));
    assert_eq!(board.get(-4, -10), Some(GREY));
    assert_eq!(board.get(-4, -9), None);
    for x in -HALF_WIDTH..HALF_WIDTH {
        if x != -4 {
            assert_eq!(board.get(x, -10), None);
        }
    }
}

#[test]
fn spawn_on_locked_origin_ends_game() {
    let mut board = Board::new();
    board.lock(SPAWN_X, SPAWN_Y, GREY);
    let game = Game::from_parts(board, Piece::spawn(3, GREEN));
    assert_eq!(game.phase(), Phase::GameOver);
    assert_eq!(game.piece_anchor(), None);
    assert!(game.piece_cells().is_empty());
    assert_eq!(game.board().get(SPAWN_X, SPAWN_Y), Some(GREY));
}

#[test]
fn locking_then_blocked_spawn_ends_game() {
    let mut board = Board::new();
    board.lock(SPAWN_X, SPAWN_Y, GREY);
    let mut game = Game::from_parts(board, single_cell(-4, -10));
    assert_eq!(game.tick_down(1, GREEN), TickOutcome::GameOver);
    assert_eq!(game.phase(), Phase::GameOver);
    assert_eq!(game.board().get(-4, -10), Some(GREEN));
}

#[test]
fn piece_stopping_at_spawn_origin_ends_game() {
    let mut board = Board::new();
    // a locked cell right under shape 1, which lies flat on the spawn row
    board.lock(SPAWN_X, SPAWN_Y - 1, GREY);
    let mut game = Game::from_parts(board, Piece::spawn(1, GREEN));
    assert_eq!(game.phase(), Phase::Playing);
    assert_eq!(game.tick_down(0, GREEN), TickOutcome::GameOver);
    assert_eq!(game.phase(), Phase::GameOver);
    // the piece was not locked
    assert_eq!(game.board().get(SPAWN_X, SPAWN_Y), None);
    assert_eq!(game.piece_anchor(), Some(Point { x: SPAWN_X, y: SPAWN_Y }));

    let mut free = Game::new(1, GREEN);
    assert_eq!(free.tick_down(0, GREEN), TickOutcome::Fell);
}

#[test]
fn lateral_move_stops_at_walls() {
    let mut game = Game::new(1, GREEN);
    let mut moves = 0;
    while game.move_sideways(1) {
        moves += 1;
    }
    assert_eq!(moves, 3);
    assert_eq!(game.piece_anchor(), Some(Point { x: 3, y: SPAWN_Y }));
    assert!(!game.move_sideways(1));
    assert_eq!(game.piece_anchor(), Some(Point { x: 3, y: SPAWN_Y }));
    let mut back = 0;
    while game.move_sideways(-1) {
        back += 1;
    }
    assert_eq!(back, 7);
    assert_eq!(game.piece_anchor(), Some(Point { x: -4, y: SPAWN_Y }));
    assert!(!game.move_sideways(0));
}

#[test]
fn lateral_move_blocked_by_locked_cell() {
    let mut board = Board::new();
    board.lock(2, SPAWN_Y, GREY);
    let mut game = Game::from_parts(board, Piece::spawn(1, GREEN));
    assert!(!game.move_sideways(1));
    assert_eq!(game.piece_anchor(), Some(Point { x: 0, y: SPAWN_Y }));
    assert!(game.move_sideways(-1));
    assert_eq!(game.piece_anchor(), Some(Point { x: -1, y: SPAWN_Y }));
}

#[test]
fn random_moves_never_cross_walls() {
    let mut seed: u64 = 12345;
    for round in 0..20 {
        let mut game = Game::new(round % 5, GREEN);
        for _ in 0..200 {
            seed = seed.wrapping_mul(6364136223846793005).wrapping_add(1442695040888963407);
            let dir = ((seed >> 33) % 3) as i64 - 1;
            if (seed >> 40) % 4 == 0 {
                game.rotate();
            }
            if game.move_sideways(dir) {
                for cell in game.piece_cells() {
                    assert!(-HALF_WIDTH <= cell.x && cell.x < HALF_WIDTH);
                }
            }
        }
    }
}

#[test]
fn rotate_turns_cells_about_anchor() {
    let mut game = Game::new(1, GREEN);
    assert!(game.rotate());
    assert_eq!(
        game.piece_cells(),
        vec![Point { x: 0, y: 8 }, Point { x: 0, y: 9 }, Point { x: 0, y: 7 }]
    );
    assert!(game.rotate());
    assert!(game.rotate());
    assert!(game.rotate());
    assert_eq!(
        game.piece_cells(),
        vec![Point { x: 0, y: 8 }, Point { x: -1, y: 8 }, Point { x: 1, y: 8 }]
    );
}

#[test]
fn rotate_refused_off_the_board() {
    let mut board = Board::new();
    board.lock(0, 9, GREY);
    let mut game = Game::from_parts(board, Piece::spawn(1, GREEN));
    assert!(!game.rotate());
    assert_eq!(
        game.piece_cells(),
        vec![Point { x: 0, y: 8 }, Point { x: -1, y: 8 }, Point { x: 1, y: 8 }]
    );
}

#[test]
fn frame_ticks_gravity_after_period() {
    let mut game = Game::new(1, GREEN);
    for _ in 0..9 {
        game.frame(&idle(100), 0, GREY);
    }
    assert_eq!(game.piece_anchor(), Some(Point { x: 0, y: 8 }));
    game.frame(&idle(100), 0, GREY);
    assert_eq!(game.piece_anchor(), Some(Point { x: 0, y: 7 }));
    let soft = FrameInput { soft_drop: true, ..idle(100) };
    game.frame(&soft, 0, GREY);
    assert_eq!(game.piece_anchor(), Some(Point { x: 0, y: 6 }));
}

#[test]
fn pause_suspends_and_resumes_without_resetting_timers() {
    let mut game = Game::new(1, GREEN);
    game.frame(&idle(900), 0, GREY);
    assert_eq!(game.timers().gravity_ms, 900);
    let pause = FrameInput { pause: true, ..idle(500) };
    game.frame(&pause, 0, GREY);
    assert_eq!(game.phase(), Phase::Paused);
    game.frame(&idle(5000), 0, GREY);
    assert_eq!(game.phase(), Phase::Paused);
    assert_eq!(game.timers().gravity_ms, 900);
    assert_eq!(game.piece_anchor(), Some(Point { x: 0, y: 8 }));
    let resume = FrameInput { pause: true, ..idle(100) };
    game.frame(&resume, 0, GREY);
    assert_eq!(game.phase(), Phase::Playing);
    assert_eq!(game.piece_anchor(), Some(Point { x: 0, y: 7 }));
}

#[test]
fn frame_moves_sideways_and_rotates() {
    let mut game = Game::new(1, GREEN);
    let right = FrameInput { right: true, ..idle(40) };
    game.frame(&right, 0, GREY);
    assert_eq!(game.piece_anchor(), Some(Point { x: 1, y: 8 }));
    let turn = FrameInput { rotate: true, ..idle(1) };
    game.frame(&turn, 0, GREY);
    assert_eq!(
        game.piece_cells(),
        vec![Point { x: 1, y: 8 }, Point { x: 1, y: 9 }, Point { x: 1, y: 7 }]
    );
}

#[test]
fn game_over_is_final() {
    let mut board = Board::new();
    board.lock(SPAWN_X, SPAWN_Y, GREY);
    let mut game = Game::from_parts(board, Piece::spawn(0, GREEN));
    assert_eq!(game.phase(), Phase::GameOver);
    let pause = FrameInput { pause: true, ..idle(5000) };
    game.frame(&pause, 0, GREY);
    game.frame_random(&idle(5000));
    assert_eq!(game.phase(), Phase::GameOver);
    assert_eq!(game.score(), 0);
}

#[test]
fn random_colour_channels_below_hundred() {
    let mut seen_nonzero = false;
    for _ in 0..500 {
        let c = random_color();
        assert!(c.red < 100 && c.green < 100 && c.blue < 100);
        if c.red != 0 || c.green != 0 || c.blue != 0 {
            seen_nonzero = true;
        }
    }
    assert!(seen_nonzero);
}

#[test]
fn random_game_runs_until_over() {
    let mut game = Game::new_random();
    assert_eq!(game.phase(), Phase::Playing);
    let cells = game.piece_cells().len();
    assert!(cells == 3 || cells == 4);
    let mut frames = 0;
    while game.phase() != Phase::GameOver && frames < 100_000 {
        game.frame_random(&idle(1000));
        frames += 1;
    }
    assert_eq!(game.phase(), Phase::GameOver);
    assert_eq!(game.score() % SCORE_INCREMENT, 0);
}
