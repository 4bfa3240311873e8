use bevy::time::{Timer, TimerMode};
use std::time::Duration;
use tetris_lib::board::{remove_piece_component, GameBoard};
use tetris_lib::keymap::move_piece;
use tetris_lib::score::Score;
use tetris_lib::tetromino::{Movable, Piece, Shape, Tile};
use tetris_lib::timers::GameTimers;

const MILLI: u64 = 1_000_000;

fn millis(n: u64) -> Duration {
    Duration::from_millis(n)
}

fn resting() -> Piece {
    Piece {
        shape: Shape::O,
        blocks: [Tile(4, 1), Tile(4, 0), Tile(5, 1), Tile(5, 0)],
        movable: Movable { can_down: false, can_left: false, can_right: false },
    }
}

#[test]
fn the_timers_of_a_new_game() {
    let timers = GameTimers::new();
    assert_eq!(timers.manual.duration(), millis(100));
    assert_eq!(timers.manual.elapsed(), millis(100));
    assert_eq!(timers.manual.mode(), TimerMode::Once);
    assert_eq!(timers.auto.duration(), millis(1000));
    assert_eq!(timers.auto.elapsed(), millis(1000));
    assert_eq!(timers.auto.mode(), TimerMode::Repeating);
    assert_eq!(timers.rm_pieces.duration(), millis(300));
    assert_eq!(timers.rm_pieces.elapsed(), millis(300));
    assert_eq!(timers.rm_pieces.mode(), TimerMode::Once);
    for timer in [&timers.manual, &timers.auto, &timers.rm_pieces] {
        assert!(!timer.finished());
        assert!(!timer.just_finished());
        assert!(!timer.paused());
    }
    assert!(timers.is_ready());
}

#[test]
fn the_timers_of_a_new_game_finish_at_their_first_tick() {
    let mut timers = GameTimers::new();
    let mut board = GameBoard { piece: Some(resting()), tiles: Vec::new() };
    assert!(!move_piece(&mut board, &mut timers, &Score::new(), 1, false, false, false));
    assert!(timers.manual.finished());
    assert!(timers.manual.just_finished());
    assert_eq!(timers.manual.elapsed(), millis(100));
    assert!(timers.auto.finished());
    assert!(timers.auto.just_finished());
    assert_eq!(timers.auto.elapsed(), Duration::from_nanos(1));
    assert!(remove_piece_component(&mut board, &mut timers, false, 1));
    assert_eq!(timers.rm_pieces.elapsed(), Duration::ZERO);
}

#[test]
fn the_pause_timer_runs_once_and_the_fall_timer_repeats() {
    let mut timers = GameTimers::new();
    timers.manual.reset();
    timers.auto.reset();
    let mut board = GameBoard::new();
    let score = Score::new();
    move_piece(&mut board, &mut timers, &score, 60 * MILLI, false, false, false);
    assert_eq!(timers.manual.elapsed(), millis(60));
    assert!(!timers.manual.finished());
    move_piece(&mut board, &mut timers, &score, 60 * MILLI, false, false, false);
    assert_eq!(timers.manual.elapsed(), millis(100));
    assert!(timers.manual.finished() && timers.manual.just_finished());
    move_piece(&mut board, &mut timers, &score, 2500 * MILLI, false, false, false);
    assert_eq!(timers.manual.elapsed(), millis(100));
    assert!(timers.manual.finished() && !timers.manual.just_finished());
    assert_eq!(timers.auto.elapsed(), millis(620));
    assert!(timers.auto.finished() && timers.auto.just_finished());
    assert_eq!(timers.auto.times_finished_this_tick(), 2);
    move_piece(&mut board, &mut timers, &score, 10 * MILLI, false, false, false);
    assert_eq!(timers.auto.elapsed(), millis(630));
    assert!(!timers.auto.finished() && !timers.auto.just_finished());
}

#[test]
fn a_tick_may_be_as_long_as_a_u64_holds() {
    let mut timers = GameTimers::new();
    timers.auto.reset();
    let mut board = GameBoard::new();
    let score = Score { points: u32::MAX, lines: 0 };
    move_piece(&mut board, &mut timers, &score, u64::MAX, false, false, false);
    let total = u128::from(u64::MAX) + 42_949_672 * u128::from(MILLI);
    let times = (total / 1_000_000_000) % (1 << 32);
    assert_eq!(u128::from(timers.auto.times_finished_this_tick()), times);
    assert_eq!(timers.auto.elapsed().as_nanos(), total - 1_000_000_000 * times);
    assert!(timers.auto.finished());
}

#[test]
fn paused_timers_do_not_advance() {
    let mut timers = GameTimers::new();
    timers.manual.reset();
    timers.auto.reset();
    timers.manual.pause();
    timers.auto.pause();
    let mut board = GameBoard::new();
    move_piece(&mut board, &mut timers, &Score::new(), 5000 * MILLI, false, false, false);
    assert_eq!(timers.manual.elapsed(), Duration::ZERO);
    assert_eq!(timers.auto.elapsed(), Duration::ZERO);
    assert!(!timers.manual.finished() && !timers.auto.finished());
}

#[test]
fn timers_that_cannot_be_ticked_are_told_apart() {
    let mut timers = GameTimers::new();
    assert!(timers.is_ready());
    timers.auto = Timer::new(Duration::ZERO, TimerMode::Repeating);
    assert!(!timers.is_ready());
    timers.auto = Timer::new(Duration::ZERO, TimerMode::Once);
    assert!(timers.is_ready());
    timers.rm_pieces.set_elapsed(Duration::MAX);
    assert!(!timers.is_ready());
    timers.rm_pieces.set_elapsed(Duration::MAX - Duration::from_nanos(u64::MAX) - Duration::from_nanos(u64::MAX));
    assert!(timers.is_ready());
    timers.manual.set_elapsed(Duration::MAX - Duration::from_nanos(u64::MAX));
    assert!(!timers.is_ready());
}

#[test]
fn a_hundred_points_speed_the_fall_up_by_a_millisecond() {
    assert_eq!(GameTimers::calculate_score_speed_offset(&Score { points: 0, lines: 0 }), 0);
    assert_eq!(GameTimers::calculate_score_speed_offset(&Score { points: 99, lines: 9 }), 0);
    assert_eq!(GameTimers::calculate_score_speed_offset(&Score { points: 100, lines: 0 }), MILLI);
    assert_eq!(GameTimers::calculate_score_speed_offset(&Score { points: 1299, lines: 0 }), 12 * MILLI);
    assert_eq!(
        GameTimers::calculate_score_speed_offset(&Score { points: u32::MAX, lines: 0 }),
        42_949_672 * MILLI
    );
}
