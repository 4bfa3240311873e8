use tetris_lib::board::{GameBoard, GameBoardData};
use tetris_lib::keymap::{
    emit_game_events, handle_game_event, handle_game_events, handle_quit, hold_piece, move_piece, rotate_piece,
    GameEvent,
};
use tetris_lib::score::Score;
use tetris_lib::state::{AppState, GameState};
use tetris_lib::tetromino::{spawn_next, Movable, Piece, Queue, Shape, Tetromino, Tile};
use std::time::Duration;
use tetris_lib::timers::GameTimers;

const MILLI: u64 = 1_000_000;

fn piece(shape: Shape, blocks: [Tile; 4]) -> Piece {
    Piece { shape, blocks, movable: Movable { can_down: true, can_left: true, can_right: true } }
}

fn board_of(p: Piece, tiles: Vec<Tile>) -> GameBoard {
    GameBoard { piece: Some(p), tiles }
}

fn rested_timers() -> GameTimers {
    let mut timers = GameTimers::new();
    timers.manual.reset();
    timers.auto.reset();
    timers.rm_pieces.reset();
    timers
}

#[test]
fn a_line_piece_turns_about_its_centre() {
    let before = piece(Shape::I, [Tile(3, 10), Tile(4, 10), Tile(5, 10), Tile(6, 10)]);
    let mut board = board_of(before, Vec::new());
    assert!(rotate_piece(true, &mut board));
    let after = board.piece.unwrap();
    assert_eq!(after.blocks, [Tile(4, 11), Tile(4, 10), Tile(4, 9), Tile(4, 8)]);
    assert_eq!(after.shape, Shape::I);
    assert_eq!(after.movable, before.movable);
}

#[test]
fn hooked_and_square_pieces_are_lifted_by_one_row() {
    let mut board = board_of(piece(Shape::O, [Tile(4, 11), Tile(4, 10), Tile(5, 11), Tile(5, 10)]), Vec::new());
    assert!(rotate_piece(true, &mut board));
    assert_eq!(board.piece.unwrap().blocks, [Tile(5, 11), Tile(4, 11), Tile(5, 10), Tile(4, 10)]);
    let mut board = board_of(piece(Shape::T, [Tile(3, 10), Tile(4, 11), Tile(4, 10), Tile(5, 10)]), Vec::new());
    assert!(rotate_piece(true, &mut board));
    assert_eq!(board.piece.unwrap().blocks, [Tile(4, 11), Tile(5, 10), Tile(4, 10), Tile(4, 9)]);
    let mut board = board_of(piece(Shape::L, [Tile(3, 10), Tile(4, 10), Tile(5, 10), Tile(5, 11)]), Vec::new());
    assert!(rotate_piece(true, &mut board));
    assert_eq!(board.piece.unwrap().blocks, [Tile(4, 12), Tile(4, 11), Tile(4, 10), Tile(5, 10)]);
}

#[test]
fn a_turn_blocked_by_the_wall_is_moved_one_column_right() {
    let mut board = board_of(piece(Shape::I, [Tile(0, 11), Tile(0, 10), Tile(0, 9), Tile(0, 8)]), Vec::new());
    assert!(rotate_piece(true, &mut board));
    assert_eq!(board.piece.unwrap().blocks, [Tile(3, 9), Tile(2, 9), Tile(1, 9), Tile(0, 9)]);
}

#[test]
fn a_blocked_turn_is_first_tried_one_column_left() {
    let tiles = vec![Tile(4, 8)];
    let mut board = board_of(piece(Shape::I, [Tile(3, 10), Tile(4, 10), Tile(5, 10), Tile(6, 10)]), tiles.clone());
    assert!(rotate_piece(true, &mut board));
    assert_eq!(board.piece.unwrap().blocks, [Tile(3, 11), Tile(3, 10), Tile(3, 9), Tile(3, 8)]);
    assert_eq!(board.tiles, tiles);
}

#[test]
fn then_two_columns_left_then_one_and_four_columns_right() {
    let start = [Tile(3, 10), Tile(4, 10), Tile(5, 10), Tile(6, 10)];
    let mut board = board_of(piece(Shape::I, start), vec![Tile(4, 8), Tile(3, 8)]);
    assert!(rotate_piece(true, &mut board));
    assert_eq!(board.piece.unwrap().blocks, [Tile(2, 11), Tile(2, 10), Tile(2, 9), Tile(2, 8)]);
    let mut board = board_of(piece(Shape::I, start), vec![Tile(4, 8), Tile(3, 8), Tile(2, 8)]);
    assert!(rotate_piece(true, &mut board));
    assert_eq!(board.piece.unwrap().blocks, [Tile(5, 11), Tile(5, 10), Tile(5, 9), Tile(5, 8)]);
    let mut board = board_of(piece(Shape::I, start), vec![Tile(4, 8), Tile(3, 8), Tile(2, 8), Tile(5, 8)]);
    assert!(rotate_piece(true, &mut board));
    assert_eq!(board.piece.unwrap().blocks, [Tile(8, 11), Tile(8, 10), Tile(8, 9), Tile(8, 8)]);
}

#[test]
fn a_turn_that_fits_nowhere_leaves_the_piece_as_it_was() {
    let start = piece(Shape::I, [Tile(3, 10), Tile(4, 10), Tile(5, 10), Tile(6, 10)]);
    let tiles = vec![Tile(4, 8), Tile(3, 8), Tile(2, 8), Tile(5, 8), Tile(8, 8)];
    let mut board = board_of(start, tiles.clone());
    assert!(!rotate_piece(true, &mut board));
    assert_eq!(board.piece, Some(start));
    assert_eq!(board.tiles, tiles);
}

#[test]
fn a_turn_through_the_floor_leaves_the_piece_as_it_was() {
    let start = piece(Shape::I, [Tile(3, 0), Tile(4, 0), Tile(5, 0), Tile(6, 0)]);
    let mut board = board_of(start, Vec::new());
    assert!(!rotate_piece(true, &mut board));
    assert_eq!(board.piece, Some(start));
}

#[test]
fn no_turn_without_the_key_or_without_a_piece() {
    let start = piece(Shape::I, [Tile(3, 10), Tile(4, 10), Tile(5, 10), Tile(6, 10)]);
    let mut board = board_of(start, Vec::new());
    assert!(!rotate_piece(false, &mut board));
    assert_eq!(board.piece, Some(start));
    let mut empty = GameBoard { piece: None, tiles: vec![Tile(1, 1)] };
    assert!(!rotate_piece(true, &mut empty));
    assert_eq!(empty.piece, None);
    assert_eq!(empty.tiles, vec![Tile(1, 1)]);
}

#[test]
fn the_piece_falls_when_the_fall_timer_finishes() {
    let start = piece(Shape::O, [Tile(4, 11), Tile(4, 10), Tile(5, 11), Tile(5, 10)]);
    let mut board = board_of(start, vec![Tile(0, 0)]);
    let mut timers = rested_timers();
    let score = Score::new();
    assert!(!move_piece(&mut board, &mut timers, &score, 999 * MILLI, false, false, false));
    assert_eq!(board.piece, Some(start));
    assert_eq!(timers.auto.elapsed(), Duration::from_millis(999));
    assert!(move_piece(&mut board, &mut timers, &score, 3 * MILLI, false, false, false));
    assert_eq!(board.piece.unwrap().blocks, [Tile(4, 10), Tile(4, 9), Tile(5, 10), Tile(5, 9)]);
    assert_eq!(timers.auto.elapsed(), Duration::from_millis(2));
    assert_eq!(board.tiles, vec![Tile(0, 0)]);
}

#[test]
fn the_score_speeds_the_fall_up() {
    let start = piece(Shape::O, [Tile(4, 11), Tile(4, 10), Tile(5, 11), Tile(5, 10)]);
    let mut board = board_of(start, Vec::new());
    let mut timers = rested_timers();
    let score = Score { points: 1250, lines: 0 };
    assert!(!move_piece(&mut board, &mut timers, &score, 100 * MILLI, false, false, false));
    assert_eq!(timers.auto.elapsed(), Duration::from_millis(112));
    assert_eq!(timers.manual.elapsed(), Duration::from_millis(100));
}

#[test]
fn a_piece_that_cannot_go_down_does_not_fall() {
    let mut start = piece(Shape::O, [Tile(4, 1), Tile(4, 0), Tile(5, 1), Tile(5, 0)]);
    start.movable.can_down = false;
    let mut board = board_of(start, Vec::new());
    let mut timers = GameTimers::new();
    assert!(!move_piece(&mut board, &mut timers, &Score::new(), MILLI, false, false, true));
    assert_eq!(board.piece, Some(start));
    assert!(timers.auto.just_finished());
    assert!(timers.manual.finished());
}

#[test]
fn the_keys_move_the_piece_once_the_pause_is_over() {
    let start = piece(Shape::O, [Tile(4, 11), Tile(4, 10), Tile(5, 11), Tile(5, 10)]);
    let mut board = board_of(start, Vec::new());
    let mut timers = rested_timers();
    let score = Score::new();
    assert!(!move_piece(&mut board, &mut timers, &score, 50 * MILLI, true, false, false));
    assert_eq!(board.piece, Some(start));
    assert!(!move_piece(&mut board, &mut timers, &score, 50 * MILLI, true, false, false));
    assert_eq!(board.piece.unwrap().blocks, [Tile(3, 11), Tile(3, 10), Tile(4, 11), Tile(4, 10)]);
    assert_eq!(timers.manual.elapsed(), Duration::ZERO);
    assert!(!timers.manual.finished());
    assert!(!move_piece(&mut board, &mut timers, &score, 100 * MILLI, false, true, true));
    assert_eq!(board.piece.unwrap().blocks, [Tile(4, 11), Tile(4, 10), Tile(5, 11), Tile(5, 10)]);
    assert!(!move_piece(&mut board, &mut timers, &score, 100 * MILLI, false, false, true));
    assert_eq!(board.piece.unwrap().blocks, [Tile(4, 10), Tile(4, 9), Tile(5, 10), Tile(5, 9)]);
}

#[test]
fn left_goes_before_right_and_flags_gate_the_move() {
    let mut start = piece(Shape::O, [Tile(0, 11), Tile(0, 10), Tile(1, 11), Tile(1, 10)]);
    start.movable.can_left = false;
    let mut board = board_of(start, Vec::new());
    let mut timers = rested_timers();
    let score = Score::new();
    assert!(!move_piece(&mut board, &mut timers, &score, 100 * MILLI, true, true, false));
    assert_eq!(board.piece.unwrap().blocks, [Tile(1, 11), Tile(1, 10), Tile(2, 11), Tile(2, 10)]);
    let mut board = board_of(piece(Shape::O, [Tile(4, 11), Tile(4, 10), Tile(5, 11), Tile(5, 10)]), Vec::new());
    let mut timers = rested_timers();
    assert!(!move_piece(&mut board, &mut timers, &score, 100 * MILLI, true, true, true));
    assert_eq!(board.piece.unwrap().blocks, [Tile(3, 11), Tile(3, 10), Tile(4, 11), Tile(4, 10)]);
}

#[test]
fn a_piece_that_just_fell_is_not_pushed_down_again() {
    let start = piece(Shape::O, [Tile(4, 11), Tile(4, 10), Tile(5, 11), Tile(5, 10)]);
    let mut board = board_of(start, Vec::new());
    let mut timers = GameTimers::new();
    assert!(move_piece(&mut board, &mut timers, &Score::new(), MILLI, false, false, true));
    assert_eq!(board.piece.unwrap().blocks, [Tile(4, 10), Tile(4, 9), Tile(5, 10), Tile(5, 9)]);
    assert!(timers.manual.finished());
    assert_eq!(timers.manual.elapsed(), Duration::from_millis(100));
}

#[test]
fn a_fall_and_a_step_sideways_in_one_tick() {
    let start = piece(Shape::O, [Tile(4, 11), Tile(4, 10), Tile(5, 11), Tile(5, 10)]);
    let mut board = board_of(start, Vec::new());
    let mut timers = GameTimers::new();
    assert!(move_piece(&mut board, &mut timers, &Score::new(), MILLI, false, true, false));
    assert_eq!(board.piece.unwrap().blocks, [Tile(5, 10), Tile(5, 9), Tile(6, 10), Tile(6, 9)]);
    assert_eq!(timers.manual.elapsed(), Duration::ZERO);
}

#[test]
fn the_timers_run_without_a_piece() {
    let mut board = GameBoard::new();
    let mut timers = rested_timers();
    assert!(!move_piece(&mut board, &mut timers, &Score::new(), 30 * MILLI, true, false, false));
    assert_eq!(board.piece, None);
    assert_eq!(timers.manual.elapsed(), Duration::from_millis(30));
    assert_eq!(timers.auto.elapsed(), Duration::from_millis(30));
    assert_eq!(timers.rm_pieces.elapsed(), Duration::ZERO);
}

#[test]
fn holding_works_once_per_round() {
    let p = piece(Shape::S, [Tile(3, 10), Tile(4, 10), Tile(4, 11), Tile(5, 11)]);
    let mut board = board_of(p, Vec::new());
    let mut data = GameBoardData { held: false, held_piece: None, next_piece: Some(Shape::I) };
    assert!(hold_piece(true, &board, &mut data));
    let after_first = data;
    assert_eq!(after_first, GameBoardData { held: true, held_piece: Some(Shape::S), next_piece: Some(Shape::I) });
    board.piece = Some(piece(Shape::Z, p.blocks));
    assert!(!hold_piece(true, &board, &mut data));
    assert_eq!(data, after_first);
    assert_eq!(board.piece.unwrap().shape, Shape::Z);
}

#[test]
fn holding_is_open_again_after_a_spawn() {
    let mut board = board_of(piece(Shape::S, [Tile(3, 10), Tile(4, 10), Tile(4, 11), Tile(5, 11)]), Vec::new());
    let mut data = GameBoardData { held: false, held_piece: None, next_piece: None };
    assert!(hold_piece(true, &board, &mut data));
    board.piece = None;
    let mut queue = Queue::new();
    queue.extend(&vec![Tetromino::new(Shape::T)]);
    assert!(spawn_next(&mut board, &mut data, &mut queue));
    assert!(hold_piece(true, &board, &mut data));
    assert_eq!(data.held_piece, Some(Shape::T));
}

#[test]
fn nothing_is_held_without_the_key_or_without_a_piece() {
    let board = board_of(piece(Shape::S, [Tile(3, 10), Tile(4, 10), Tile(4, 11), Tile(5, 11)]), Vec::new());
    let mut data = GameBoardData { held: false, held_piece: None, next_piece: None };
    assert!(!hold_piece(false, &board, &mut data));
    assert_eq!(data, GameBoardData { held: false, held_piece: None, next_piece: None });
    assert!(!hold_piece(true, &GameBoard::new(), &mut data));
    assert_eq!(data, GameBoardData { held: false, held_piece: None, next_piece: None });
}

#[test]
fn keys_become_events() {
    assert_eq!(emit_game_events(true, true, true), Some(GameEvent::PlayPause));
    assert_eq!(emit_game_events(false, true, true), Some(GameEvent::NewGame));
    assert_eq!(emit_game_events(false, false, true), Some(GameEvent::ToggleMute));
    assert_eq!(emit_game_events(false, false, false), None);
}

#[test]
fn quit_keys() {
    assert!(handle_quit(true, false, false, true, false));
    assert!(handle_quit(false, true, false, false, true));
    assert!(handle_quit(false, false, true, true, false));
    assert!(!handle_quit(true, false, true, false, true));
    assert!(!handle_quit(false, true, false, true, false));
    assert!(!handle_quit(false, false, false, true, true));
}

#[test]
fn in_a_game_any_event_switches_between_playing_and_paused() {
    let mut app = Some(AppState::InGame);
    let mut game = Some(GameState::Playing);
    assert!(!handle_game_event(GameEvent::PlayPause, &mut app, &mut game));
    assert_eq!(game, Some(GameState::Paused));
    assert!(!handle_game_event(GameEvent::Quit, &mut app, &mut game));
    assert_eq!(game, Some(GameState::Playing));
    assert_eq!(app, Some(AppState::InGame));
    let mut game = Some(GameState::Restarting);
    assert!(!handle_game_event(GameEvent::NewGame, &mut app, &mut game));
    assert_eq!(game, Some(GameState::Restarting));
}

#[test]
fn outside_a_game_events_start_a_game_or_quit() {
    let mut app = None;
    let mut game = None;
    assert!(!handle_game_event(GameEvent::PlayPause, &mut app, &mut game));
    assert!(!handle_game_event(GameEvent::ToggleMute, &mut app, &mut game));
    assert_eq!((app, game), (None, None));
    assert!(handle_game_event(GameEvent::Quit, &mut app, &mut game));
    assert_eq!((app, game), (None, None));
    assert!(!handle_game_event(GameEvent::NewGame, &mut app, &mut game));
    assert_eq!(app, Some(AppState::InGame));
    assert_eq!(game, Some(GameState::Restarting));
}

#[test]
fn events_are_applied_in_order() {
    let events = vec![GameEvent::Quit, GameEvent::Quit, GameEvent::NewGame, GameEvent::Quit, GameEvent::PlayPause];
    let mut app = Some(AppState::GameOver);
    let mut game = Some(GameState::Playing);
    assert_eq!(handle_game_events(&events, &mut app, &mut game), 2);
    assert_eq!(app, Some(AppState::InGame));
    assert_eq!(game, Some(GameState::Restarting));
    assert_eq!(handle_game_events(&Vec::new(), &mut app, &mut game), 0);
    assert_eq!(app, Some(AppState::InGame));
}

#[test]
fn a_piece_that_fell_steps_onto_no_landed_tile() {
    let start = piece(Shape::O, [Tile(4, 11), Tile(4, 10), Tile(5, 11), Tile(5, 10)]);
    let tiles = vec![Tile(3, 9)];
    assert_eq!(Movable::derive(&start.blocks, &tiles), start.movable);
    let mut board = board_of(start, tiles.clone());
    let mut timers = GameTimers::new();
    assert!(move_piece(&mut board, &mut timers, &Score::new(), MILLI, true, false, false));
    assert_eq!(board.piece.unwrap().blocks, [Tile(4, 10), Tile(4, 9), Tile(5, 10), Tile(5, 9)]);
    assert!(timers.manual.finished());
    assert_eq!(timers.manual.elapsed(), Duration::from_millis(100));
    assert_eq!(board.tiles, tiles);
    let mut board = board_of(start, tiles);
    let mut timers = GameTimers::new();
    assert!(move_piece(&mut board, &mut timers, &Score::new(), MILLI, true, true, false));
    assert_eq!(board.piece.unwrap().blocks, [Tile(5, 10), Tile(5, 9), Tile(6, 10), Tile(6, 9)]);
    assert_eq!(timers.manual.elapsed(), Duration::ZERO);
}

#[test]
fn a_piece_that_fell_steps_only_by_the_flags_it_carries() {
    let blocks = [Tile(3, 5), Tile(4, 5), Tile(5, 5), Tile(6, 5)];
    let tiles = vec![Tile(2, 5)];
    let carried = Movable::derive(&blocks, &tiles);
    assert_eq!(carried, Movable { can_down: true, can_left: false, can_right: true });
    let start = Piece { shape: Shape::I, blocks, movable: carried };
    let mut board = board_of(start, tiles.clone());
    let mut timers = GameTimers::new();
    assert!(move_piece(&mut board, &mut timers, &Score::new(), MILLI, true, false, false));
    assert_eq!(board.piece.unwrap().blocks, [Tile(3, 4), Tile(4, 4), Tile(5, 4), Tile(6, 4)]);
    assert_eq!(board.piece.unwrap().movable, carried);
    assert!(timers.manual.finished());
    assert_eq!(timers.manual.elapsed(), Duration::from_millis(100));
    assert_eq!(board.tiles, tiles);
}

#[test]
fn a_piece_never_moves_against_the_flags_it_carries() {
    let blocks = [Tile(4, 11), Tile(4, 10), Tile(5, 11), Tile(5, 10)];
    for bits in 0..64u32 {
        let movable = Movable { can_down: bits & 1 != 0, can_left: bits & 2 != 0, can_right: bits & 4 != 0 };
        let start = Piece { shape: Shape::O, blocks, movable };
        let mut board = board_of(start, Vec::new());
        let mut timers = GameTimers::new();
        let (left, right, down) = (bits & 8 != 0, bits & 16 != 0, bits & 32 != 0);
        let dropped = move_piece(&mut board, &mut timers, &Score::new(), MILLI, left, right, down);
        let after = board.piece.unwrap().blocks;
        let (dx, dy) = (after[0].0 - blocks[0].0, after[0].1 - blocks[0].1);
        for k in 0..4 {
            assert_eq!((after[k].0 - blocks[k].0, after[k].1 - blocks[k].1), (dx, dy));
        }
        assert!((-1..=1).contains(&dx) && (-1..=0).contains(&dy));
        assert!(dx != -1 || movable.can_left);
        assert!(dx != 1 || movable.can_right);
        assert!(dy != -1 || movable.can_down);
        assert_eq!(dropped, movable.can_down);
    }
}
