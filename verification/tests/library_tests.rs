use rust_tetris::game::{GameState, LockTimerCommand, StepOutcome};
use rust_tetris::pieces::{
    get_kick_offsets, get_locked_block_color, get_rotated_shape, get_tetromino_color, Rgb,
    Tetromino, TetrominoType,
};
use rust_tetris::playfield::{
    check_and_clear_lines, check_collision, lock_piece, PLAYFIELD_HEIGHT, PLAYFIELD_WIDTH,
};
use rust_tetris::render::{block_with_border_rects, text_pixel_rects, FilledRect, PixelRect};
use rust_tetris::tetromino::{attempt_rotation, new_tetromino, random_tetromino_type, spawn_x, spawn_y};

const ALL_KINDS: [TetrominoType; 7] = [
    TetrominoType::I,
    TetrominoType::O,
    TetrominoType::T,
    TetrominoType::S,
    TetrominoType::Z,
    TetrominoType::J,
    TetrominoType::L,
];

fn empty_field() -> Vec<Vec<u8>> {
    vec![vec![0; PLAYFIELD_WIDTH]; PLAYFIELD_HEIGHT]
}

fn full_row(v: u8) -> Vec<u8> {
    vec![v; PLAYFIELD_WIDTH]
}

fn row_with_gap(v: u8, gap: usize) -> Vec<u8> {
    let mut r = vec![v; PLAYFIELD_WIDTH];
    r[gap] = 0;
    r
}

fn piece(t: TetrominoType, rotation_index: usize, x: i32, y: i32) -> Tetromino {
    Tetromino { tetromino_type: t, rotation_index, blocks: get_rotated_shape(t, rotation_index), x, y }
}

// ---------------------------------------------------------------- pieces

#[test]
fn values_of_kinds() {
    let values: Vec<u8> = ALL_KINDS.iter().map(|t| t.value()).collect();
    assert_eq!(values, vec![1, 2, 3, 4, 5, 6, 7]);
    for i in 1..=7 {
        assert_eq!(TetrominoType::from_index(i).value() as i32, i);
    }
    assert_eq!(TetrominoType::from_index(0), TetrominoType::L);
    assert_eq!(TetrominoType::from_index(42), TetrominoType::L);
}

#[test]
fn rotated_shapes_match_table() {
    assert_eq!(get_rotated_shape(TetrominoType::I, 0), vec![(0, 0), (-1, 0), (1, 0), (2, 0)]);
    assert_eq!(get_rotated_shape(TetrominoType::I, 1), vec![(0, 0), (0, -1), (0, 1), (0, 2)]);
    assert_eq!(get_rotated_shape(TetrominoType::T, 2), vec![(0, 0), (-1, 0), (1, 0), (0, 1)]);
    assert_eq!(get_rotated_shape(TetrominoType::J, 3), vec![(0, 0), (0, -1), (0, 1), (-1, -1)]);
    assert_eq!(get_rotated_shape(TetrominoType::L, 1), vec![(0, 0), (0, -1), (0, 1), (1, -1)]);
    // the rotation index is taken modulo 4
    assert_eq!(get_rotated_shape(TetrominoType::T, 5), get_rotated_shape(TetrominoType::T, 1));
    for t in ALL_KINDS {
        for r in 0..4 {
            let s = get_rotated_shape(t, r);
            assert_eq!(s.len(), 4);
            assert_eq!(s[0], (0, 0));
        }
        assert_eq!(get_rotated_shape(TetrominoType::O, 0), get_rotated_shape(TetrominoType::O, 3));
    }
}

#[test]
fn kick_tables() {
    assert_eq!(
        get_kick_offsets(TetrominoType::T, true, 0),
        vec![(0, 0), (-1, 0), (-1, -1), (0, 2), (-1, 2)]
    );
    assert_eq!(
        get_kick_offsets(TetrominoType::J, false, 2),
        vec![(0, 0), (-1, 0), (-1, -1), (0, 2), (-1, 2)]
    );
    assert_eq!(
        get_kick_offsets(TetrominoType::I, true, 3),
        vec![(0, 0), (1, 0), (-2, 0), (1, 2), (-2, -1)]
    );
    assert_eq!(
        get_kick_offsets(TetrominoType::I, false, 0),
        vec![(0, 0), (-1, 0), (2, 0), (-1, -2), (2, 1)]
    );
}

#[test]
fn colours() {
    assert_eq!(get_tetromino_color(TetrominoType::I), Rgb { r: 255, g: 215, b: 0 });
    assert_eq!(get_tetromino_color(TetrominoType::T), Rgb { r: 138, g: 43, b: 226 });
    assert_eq!(get_tetromino_color(TetrominoType::L), Rgb { r: 205, g: 92, b: 92 });
    for t in ALL_KINDS {
        assert_eq!(get_locked_block_color(t.value()), get_tetromino_color(t));
    }
    assert_eq!(get_locked_block_color(0), Rgb { r: 70, g: 70, b: 70 });
    assert_eq!(get_locked_block_color(8), Rgb { r: 70, g: 70, b: 70 });
}

// ---------------------------------------------------------------- spawning

#[test]
fn spawn_positions() {
    assert_eq!(spawn_x(10), 4);
    assert_eq!(spawn_x(7), 2);
    assert_eq!(spawn_x(0), -1);
    assert_eq!(spawn_y(TetrominoType::I), 1);
    assert_eq!(spawn_y(TetrominoType::T), 1);
    assert_eq!(spawn_y(TetrominoType::S), 1);
    assert_eq!(spawn_y(TetrominoType::Z), 1);
    assert_eq!(spawn_y(TetrominoType::O), 0);
    assert_eq!(spawn_y(TetrominoType::J), 0);
    assert_eq!(spawn_y(TetrominoType::L), 0);
    let p = new_tetromino(TetrominoType::S, 10);
    assert_eq!(p.tetromino_type, TetrominoType::S);
    assert_eq!(p.rotation_index, 0);
    assert_eq!(p.blocks, get_rotated_shape(TetrominoType::S, 0));
    assert_eq!((p.x, p.y), (4, 1));
}

#[test]
fn every_new_piece_fits_an_empty_field() {
    let field = empty_field();
    for t in ALL_KINDS {
        let p = new_tetromino(t, PLAYFIELD_WIDTH);
        assert!(!check_collision(&p.blocks, &field, p.x, p.y));
    }
    for _ in 0..50 {
        let t = random_tetromino_type();
        assert!((1..=7).contains(&t.value()));
    }
}

// ---------------------------------------------------------------- collision

#[test]
fn collision_with_walls_floor_and_blocks() {
    let mut field = empty_field();
    let i_flat = get_rotated_shape(TetrominoType::I, 0);
    // blocks at x-1 .. x+2
    assert!(!check_collision(&i_flat, &field, 1, 5));
    assert!(check_collision(&i_flat, &field, 0, 5));
    assert!(!check_collision(&i_flat, &field, 7, 5));
    assert!(check_collision(&i_flat, &field, 8, 5));
    // floor
    assert!(!check_collision(&i_flat, &field, 4, 19));
    assert!(check_collision(&i_flat, &field, 4, 20));
    // above the top is open
    assert!(!check_collision(&i_flat, &field, 4, -5));
    // a locked block
    field[19][6] = 3;
    assert!(check_collision(&i_flat, &field, 4, 19));
    assert!(!check_collision(&i_flat, &field, 3, 19));
}

// ---------------------------------------------------------------- line clears

#[test]
fn clearing_one_bottom_line() {
    let mut field = empty_field();
    field[19] = full_row(1);
    field[18] = row_with_gap(2, 3);
    let (lines, score) = check_and_clear_lines(&mut field, 1);
    assert_eq!((lines, score), (1, 100));
    assert_eq!(field.len(), PLAYFIELD_HEIGHT);
    assert_eq!(field[19], row_with_gap(2, 3));
    assert_eq!(field[0], vec![0; PLAYFIELD_WIDTH]);
    for r in 0..19 {
        assert_eq!(field[r], vec![0; PLAYFIELD_WIDTH]);
    }
}

#[test]
fn clearing_scores_by_line_count_and_level() {
    let cases: [(usize, u32, u32); 5] =
        [(1, 3, 300), (2, 2, 600), (3, 1, 500), (4, 5, 4000), (0, 7, 0)];
    for (n, level, points) in cases {
        let mut field = empty_field();
        for k in 0..n {
            field[19 - k] = full_row(4);
        }
        field[19 - n] = row_with_gap(5, 0);
        let (lines, score) = check_and_clear_lines(&mut field, level);
        assert_eq!(lines as usize, n);
        assert_eq!(score, points);
        assert_eq!(field[19], row_with_gap(5, 0));
    }
}

#[test]
fn five_full_lines_clear_but_score_nothing() {
    let mut field = empty_field();
    for k in 0..5 {
        field[19 - k] = full_row(6);
    }
    let (lines, score) = check_and_clear_lines(&mut field, 3);
    assert_eq!((lines, score), (5, 0));
    assert_eq!(field, empty_field());
}

#[test]
fn clearing_rows_that_are_not_adjacent() {
    let mut field = empty_field();
    field[19] = full_row(1);
    field[18] = row_with_gap(2, 9);
    field[17] = full_row(3);
    field[16] = row_with_gap(4, 0);
    let (lines, score) = check_and_clear_lines(&mut field, 2);
    assert_eq!((lines, score), (2, 600));
    assert_eq!(field[19], row_with_gap(2, 9));
    assert_eq!(field[18], row_with_gap(4, 0));
    assert_eq!(field[17], vec![0; PLAYFIELD_WIDTH]);
}

#[test]
fn top_row_alone_is_not_cleared() {
    let mut field = empty_field();
    field[0] = full_row(7);
    let (lines, score) = check_and_clear_lines(&mut field, 1);
    assert_eq!((lines, score), (0, 0));
    assert_eq!(field[0], full_row(7));
}

#[test]
fn top_row_is_cleared_after_a_lower_line() {
    let mut field = empty_field();
    field[0] = full_row(7);
    field[19] = full_row(1);
    let (lines, score) = check_and_clear_lines(&mut field, 1);
    assert_eq!((lines, score), (2, 300));
    assert_eq!(field, empty_field());
}

#[test]
fn rows_below_the_visible_field_are_kept() {
    let mut field = empty_field();
    field[19] = full_row(1);
    field.push(full_row(2));
    let (lines, _) = check_and_clear_lines(&mut field, 1);
    assert_eq!(lines, 1);
    assert_eq!(field.len(), PLAYFIELD_HEIGHT + 1);
    assert_eq!(field[PLAYFIELD_HEIGHT], full_row(2));
    assert_eq!(field[19], vec![0; PLAYFIELD_WIDTH]);
}

#[test]
fn no_full_row_changes_nothing() {
    let mut field = empty_field();
    for r in 10..20 {
        field[r] = row_with_gap(3, r % PLAYFIELD_WIDTH);
    }
    let before = field.clone();
    let (lines, score) = check_and_clear_lines(&mut field, 9);
    assert_eq!((lines, score), (0, 0));
    assert_eq!(field, before);
}

// ---------------------------------------------------------------- locking

#[test]
fn locking_writes_the_piece_value() {
    let mut field = empty_field();
    let t = piece(TetrominoType::T, 0, 4, 10);
    let (mut score, mut total, mut level) = (5u32, 0u32, 1u32);
    lock_piece(&t, &mut field, 1, &mut score, &mut total, &mut level);
    assert_eq!(field[10][3], 3);
    assert_eq!(field[10][4], 3);
    assert_eq!(field[10][5], 3);
    assert_eq!(field[9][4], 3);
    assert_eq!(field[9][3], 0);
    assert_eq!((score, total, level), (5, 0, 1));
}

#[test]
fn locking_ignores_blocks_outside_the_field() {
    let mut field = empty_field();
    let j = piece(TetrominoType::J, 0, 4, 0);
    let (mut score, mut total, mut level) = (0u32, 0u32, 1u32);
    lock_piece(&j, &mut field, 1, &mut score, &mut total, &mut level);
    // the block at (5, -1) is above the top and leaves no mark
    assert_eq!(field[0][3], 6);
    assert_eq!(field[0][4], 6);
    assert_eq!(field[0][5], 6);
    let marked: usize = field.iter().map(|r| r.iter().filter(|c| **c != 0).count()).sum();
    assert_eq!(marked, 3);
}

#[test]
fn locking_clears_lines_and_raises_the_level() {
    let mut field = empty_field();
    field[19] = vec![1, 1, 1, 1, 0, 0, 0, 0, 1, 1];
    let i = piece(TetrominoType::I, 0, 5, 19);
    let (mut score, mut total, mut level) = (10u32, 9u32, 1u32);
    lock_piece(&i, &mut field, level, &mut score, &mut total, &mut level);
    assert_eq!(score, 110);
    assert_eq!(total, 10);
    assert_eq!(level, 2);
    assert_eq!(field, empty_field());
}

// ---------------------------------------------------------------- rotation

#[test]
fn the_o_piece_never_turns() {
    let field = empty_field();
    let o = piece(TetrominoType::O, 0, 4, 5);
    assert!(attempt_rotation(&o, &field, true).is_none());
    assert!(attempt_rotation(&o, &field, false).is_none());
}

#[test]
fn free_turns_take_the_first_kick() {
    let field = empty_field();
    let t = piece(TetrominoType::T, 0, 4, 5);
    let (blocks, x, y, r) = attempt_rotation(&t, &field, true).unwrap();
    assert_eq!((x, y, r), (4, 5, 1));
    assert_eq!(blocks, get_rotated_shape(TetrominoType::T, 1));
    let (blocks, x, y, r) = attempt_rotation(&t, &field, false).unwrap();
    assert_eq!((x, y, r), (4, 5, 3));
    assert_eq!(blocks, get_rotated_shape(TetrominoType::T, 3));
}

#[test]
fn turning_against_a_wall_kicks_the_piece() {
    let field = empty_field();
    // a vertical I on the left wall; turning back to flat needs room at x-1
    let i = piece(TetrominoType::I, 1, 0, 5);
    let (blocks, x, y, r) = attempt_rotation(&i, &field, true).unwrap();
    // I kicks from state 1 clockwise: (0,0) collides, (-1,0) collides, (2,0) fits
    assert_eq!((x, y, r), (2, 5, 2));
    assert_eq!(blocks, get_rotated_shape(TetrominoType::I, 2));
}

#[test]
fn a_boxed_in_piece_cannot_turn() {
    let mut field = empty_field();
    for r in 0..PLAYFIELD_HEIGHT {
        for c in 0..PLAYFIELD_WIDTH {
            field[r][c] = 1;
        }
    }
    // free only along row 10, columns 3..=5
    field[10][3] = 0;
    field[10][4] = 0;
    field[10][5] = 0;
    let t = Tetromino {
        tetromino_type: TetrominoType::J,
        rotation_index: 0,
        blocks: vec![(0, 0), (-1, 0), (1, 0)],
        x: 4,
        y: 10,
    };
    assert!(attempt_rotation(&t, &field, true).is_none());
}

#[test]
fn opposite_turns_return_to_the_first_state() {
    let field = empty_field();
    for t in [TetrominoType::T, TetrominoType::J, TetrominoType::L, TetrominoType::S, TetrominoType::I] {
        for r in 0..4 {
            let p = piece(t, r, 4, 8);
            let (b1, x1, y1, r1) = attempt_rotation(&p, &field, true).unwrap();
            let q = Tetromino { tetromino_type: t, rotation_index: r1, blocks: b1, x: x1, y: y1 };
            let (b2, x2, y2, r2) = attempt_rotation(&q, &field, false).unwrap();
            assert_eq!(r2, r);
            assert_eq!(b2, p.blocks);
            assert_eq!((x2, y2), (4, 8));
        }
    }
}

// ---------------------------------------------------------------- the game

fn keep(restart_gravity_timer: bool) -> StepOutcome {
    StepOutcome { lock_timer: LockTimerCommand::Keep, restart_gravity_timer, game_ended: false }
}

#[test]
fn a_new_game() {
    let g = GameState::new(TetrominoType::T, TetrominoType::O);
    assert_eq!(g.playfield, empty_field());
    assert_eq!(g.current.tetromino_type, TetrominoType::T);
    assert_eq!((g.current.x, g.current.y), (4, 1));
    assert_eq!(g.next.tetromino_type, TetrominoType::O);
    assert_eq!((g.next.x, g.next.y), (4, 0));
    assert_eq!((g.score, g.total_lines_cleared, g.current_level), (0, 0, 1));
    assert!(!g.game_over);
    assert!(!g.lock_timer_running);
    assert!(g.has_headroom());
}

#[test]
fn shifting_stops_at_the_walls() {
    let mut g = GameState::new(TetrominoType::O, TetrominoType::T);
    // O occupies columns x and x+1
    let out = g.shift(false);
    assert_eq!(out.lock_timer, LockTimerCommand::Cancel);
    assert_eq!(g.current.x, 3);
    for _ in 0..10 {
        g.shift(false);
    }
    assert_eq!(g.current.x, 0);
    assert_eq!(g.shift(false), keep(false));
    assert_eq!(g.current.x, 0);
    for _ in 0..20 {
        g.shift(true);
    }
    assert_eq!(g.current.x, 8);
}

#[test]
fn soft_drop_and_lock_delay() {
    let mut g = GameState::new(TetrominoType::O, TetrominoType::I);
    let out = g.soft_drop();
    assert_eq!(out, keep(true));
    assert_eq!((g.current.y, g.score), (1, 1));
    while g.current.y < 18 {
        g.soft_drop();
    }
    assert_eq!(g.score, 18);
    // resting on the floor: the lock delay starts, once
    let out = g.soft_drop();
    assert_eq!(out.lock_timer, LockTimerCommand::Start);
    assert!(g.lock_timer_running);
    assert_eq!(g.soft_drop().lock_timer, LockTimerCommand::Keep);
    assert_eq!(g.current.y, 18);
    // not yet elapsed: nothing happens
    assert_eq!(g.lock_delay_check(false, TetrominoType::L), keep(false));
    // elapsed: the piece locks and the next one comes in
    let out = g.lock_delay_check(true, TetrominoType::L);
    assert_eq!(out.lock_timer, LockTimerCommand::Cancel);
    assert!(out.restart_gravity_timer);
    assert!(!out.game_ended);
    assert_eq!(g.playfield[19][4], 2);
    assert_eq!(g.playfield[18][5], 2);
    assert_eq!(g.current.tetromino_type, TetrominoType::I);
    assert_eq!((g.current.x, g.current.y), (4, 1));
    assert_eq!(g.next.tetromino_type, TetrominoType::L);
    assert!(!g.lock_timer_running);
}

#[test]
fn moving_off_a_ledge_cancels_the_lock_delay() {
    let mut g = GameState::new(TetrominoType::O, TetrominoType::I);
    g.playfield[19][4] = 1;
    g.playfield[19][5] = 1;
    while g.soft_drop().restart_gravity_timer {}
    assert_eq!(g.current.y, 17);
    assert!(g.lock_timer_running);
    assert_eq!(g.shift(true).lock_timer, LockTimerCommand::Cancel);
    assert!(!g.lock_timer_running);
    assert_eq!(g.shift(true).lock_timer, LockTimerCommand::Cancel);
    assert_eq!(g.current.x, 6);
    // gravity now moves it down again
    let out = g.gravity();
    assert_eq!(out, keep(true));
    assert_eq!(g.current.y, 18);
}

#[test]
fn lock_check_stops_the_delay_when_the_piece_can_fall() {
    let mut g = GameState::new(TetrominoType::O, TetrominoType::I);
    g.playfield[19][4] = 1;
    while g.soft_drop().restart_gravity_timer {}
    assert!(g.lock_timer_running);
    g.playfield[19][4] = 0;
    let out = g.lock_delay_check(true, TetrominoType::Z);
    assert_eq!(
        out,
        StepOutcome { lock_timer: LockTimerCommand::Cancel, restart_gravity_timer: false, game_ended: false }
    );
    assert!(!g.lock_timer_running);
    assert_eq!(g.current.y, 17);
}

#[test]
fn gravity_starts_the_lock_delay_on_landing() {
    let mut g = GameState::new(TetrominoType::O, TetrominoType::I);
    for _ in 0..18 {
        assert_eq!(g.gravity(), keep(true));
    }
    assert_eq!(g.current.y, 18);
    let out = g.gravity();
    assert_eq!(out.lock_timer, LockTimerCommand::Start);
    assert!(out.restart_gravity_timer);
    assert_eq!(g.gravity().lock_timer, LockTimerCommand::Keep);
    assert_eq!(g.score, 0);
}

#[test]
fn hard_drop_scores_two_per_row_and_locks() {
    let mut g = GameState::new(TetrominoType::I, TetrominoType::T);
    let out = g.hard_drop(TetrominoType::S);
    assert_eq!(
        out,
        StepOutcome { lock_timer: LockTimerCommand::Cancel, restart_gravity_timer: true, game_ended: false }
    );
    // from row 1 down to row 19
    assert_eq!(g.score, 36);
    assert_eq!(g.playfield[19], vec![0, 0, 0, 1, 1, 1, 1, 0, 0, 0]);
    assert_eq!(g.current.tetromino_type, TetrominoType::T);
    assert_eq!(g.next.tetromino_type, TetrominoType::S);
}

#[test]
fn hard_drop_clearing_a_line() {
    let mut g = GameState::new(TetrominoType::I, TetrominoType::T);
    g.playfield[19] = vec![1, 1, 1, 0, 0, 0, 0, 1, 1, 1];
    g.hard_drop(TetrominoType::S);
    assert_eq!(g.score, 36 + 100);
    assert_eq!(g.total_lines_cleared, 1);
    assert_eq!(g.current_level, 1);
    assert_eq!(g.playfield, empty_field());
}

#[test]
fn the_game_ends_when_a_new_piece_cannot_enter_and_restarts() {
    let mut g = GameState::new(TetrominoType::O, TetrominoType::O);
    for r in 2..PLAYFIELD_HEIGHT {
        g.playfield[r] = row_with_gap(1, 0);
    }
    // the first O lands on row 0..1 and the second one has no room
    let out = g.hard_drop(TetrominoType::T);
    assert!(out.game_ended);
    assert!(g.game_over);
    // nothing moves any more
    let before_x = g.current.x;
    assert_eq!(g.shift(true), keep(false));
    assert_eq!(g.rotate(true), keep(false));
    assert_eq!(g.soft_drop(), keep(false));
    assert_eq!(g.gravity(), keep(false));
    assert_eq!(g.hard_drop(TetrominoType::J), keep(false));
    assert_eq!(g.current.x, before_x);
    // restart
    let out = g.restart(TetrominoType::L, TetrominoType::Z);
    assert_eq!(
        out,
        StepOutcome { lock_timer: LockTimerCommand::Cancel, restart_gravity_timer: true, game_ended: false }
    );
    assert!(!g.game_over);
    assert_eq!(g.playfield, empty_field());
    assert_eq!((g.score, g.total_lines_cleared, g.current_level), (0, 0, 1));
    assert_eq!(g.current.tetromino_type, TetrominoType::L);
    assert_eq!(g.next.tetromino_type, TetrominoType::Z);
    // restarting a running game does nothing
    assert_eq!(g.restart(TetrominoType::I, TetrominoType::I), keep(false));
    assert_eq!(g.current.tetromino_type, TetrominoType::L);
}

#[test]
fn rotating_in_the_game() {
    let mut g = GameState::new(TetrominoType::T, TetrominoType::I);
    g.lock_timer_running = true;
    let out = g.rotate(true);
    assert_eq!(out.lock_timer, LockTimerCommand::Cancel);
    assert_eq!(g.current.rotation_index, 1);
    assert_eq!(g.current.blocks, get_rotated_shape(TetrominoType::T, 1));
    assert!(!g.lock_timer_running);
    g.rotate(false);
    g.rotate(false);
    assert_eq!(g.current.rotation_index, 3);
}

// ---------------------------------------------------------------- drawing

#[test]
fn block_with_border() {
    let fills = block_with_border_rects(30, 60, 30, Rgb { r: 138, g: 43, b: 226 });
    assert_eq!(
        fills,
        vec![
            FilledRect {
                rect: PixelRect { x: 30, y: 60, width: 30, height: 30 },
                color: Rgb { r: 88, g: 0, b: 176 },
            },
            FilledRect {
                rect: PixelRect { x: 32, y: 62, width: 26, height: 26 },
                color: Rgb { r: 138, g: 43, b: 226 },
            },
        ]
    );
    // too small for a border: the whole square in the main colour
    let fills = block_with_border_rects(0, 0, 4, Rgb { r: 10, g: 200, b: 60 });
    assert_eq!(fills[0].color, Rgb { r: 0, g: 150, b: 10 });
    assert_eq!(fills[1], FilledRect { rect: PixelRect { x: 0, y: 0, width: 4, height: 4 }, color: Rgb { r: 10, g: 200, b: 60 } });
}

#[test]
fn text_layout_with_scale_two() {
    let glyph_i: Vec<u8> = vec![0b00100, 0b00100];
    let glyphs = vec![None, Some(glyph_i)];
    let rects = text_pixel_rects(&glyphs, 100, 30, 2);
    // the second character starts 10 pixels to the right; the missing glyph draws nothing
    assert_eq!(
        rects,
        vec![
            PixelRect { x: 114, y: 30, width: 2, height: 2 },
            PixelRect { x: 114, y: 32, width: 2, height: 2 },
        ]
    );
    assert!(text_pixel_rects(&vec![], 0, 0, 2).is_empty());
}

#[test]
fn headroom_before_a_step() {
    let mut g = GameState::new(TetrominoType::J, TetrominoType::L);
    assert!(g.has_headroom());
    g.score = u32::MAX - 2200 - 800;
    assert!(g.has_headroom());
    g.score += 1;
    assert!(!g.has_headroom());
    g.score = 0;
    g.total_lines_cleared = u32::MAX - 19;
    g.current_level = g.total_lines_cleared / 10 + 1;
    assert!(!g.has_headroom());
}

#[test]
fn building_colours() {
    assert_eq!(rust_tetris::pieces::rgb(1, 2, 3), Rgb { r: 1, g: 2, b: 3 });
}
