//! What the player's intents do to the game: rotating, moving and holding the
//! piece in play, and the game-level events.
use crate::board::{GameBoard, GameBoardData};
use crate::invariants::{lemma_allowed_step_is_legal, lemma_cells_apart, lemma_rotation_keeps_cells_apart};
use crate::score::Score;
use crate::state::{AppState, GameState};
use crate::tetromino::{
    cell_free, cells_of, in_bounds, is_legal_at, is_occupied, occupied, shift_fits, shifted, tiles_at, Movable,
    Piece, PieceView, Shape, Tetromino, Tile,
};
use crate::timers::{
    advance, timer_finished, timer_just_finished, timer_reset, timer_state, GameTimers, TimerState,
};
use vstd::prelude::*;

verus! {

/// Division by four that rounds towards zero.
pub open spec fn quarter(v: int) -> int {
    if v >= 0 {
        v / 4
    } else {
        -((-v) / 4)
    }
}

/// Sum of the columns of four tiles.
pub open spec fn column_sum(blocks: Seq<Tile>) -> int {
    blocks[0].0 + blocks[1].0 + blocks[2].0 + blocks[3].0
}

/// Sum of the rows of four tiles.
pub open spec fn row_sum(blocks: Seq<Tile>) -> int {
    blocks[0].1 + blocks[1].1 + blocks[2].1 + blocks[3].1
}

/// How far up a rotated piece is moved beyond its centre row: one row for the
/// shapes whose bounding box is not symmetric, none for the others.
pub open spec fn rotation_lift(shape: Shape) -> int {
    match shape {
        Shape::O | Shape::L | Shape::J => 1,
        _ => 0,
    }
}

/// Where tile `k` of a piece goes under a quarter turn: `(col, row)` becomes
/// `(row, -col)`, moved back to the piece's centre, which is the quarter of
/// the column sum and the quarter of the row sum.
pub open spec fn rotated_cell(blocks: Seq<Tile>, shape: Shape, k: int) -> (int, int) {
    let cx = quarter(column_sum(blocks));
    let cy = quarter(row_sum(blocks));
    (blocks[k].1 + (cx - cy), -blocks[k].0 + (cx + cy) + rotation_lift(shape))
}

/// The sideways correction tried at each attempt: none at first, then one and
/// two columns to the left, then one and four columns to the right.
pub open spec fn kick(attempt: int) -> int {
    if attempt == 0 {
        0
    } else if attempt == 1 {
        -1
    } else if attempt == 2 {
        -2
    } else if attempt == 3 {
        1
    } else {
        4
    }
}

/// How many placements a rotation tries before it gives up.
pub const ROTATION_ATTEMPTS: usize = 5;

/// The cells of the rotated piece at the given attempt.
pub open spec fn rotation_candidate(blocks: Seq<Tile>, shape: Shape, attempt: int) -> Seq<(int, int)> {
    Seq::new(
        4,
        |k: int| (rotated_cell(blocks, shape, k).0 + kick(attempt), rotated_cell(blocks, shape, k).1),
    )
}

/// Whether the rotation of a piece finds no legal place at any attempt before
/// `attempt`.
pub open spec fn attempts_fail_before(blocks: Seq<Tile>, shape: Shape, tiles: Seq<Tile>, attempt: int) -> bool {
    forall|a: int| 0 <= a < attempt ==> !is_legal_at(#[trigger] rotation_candidate(blocks, shape, a), tiles)
}

/// Whether `attempt` is the first at which the rotated piece is legal.
pub open spec fn rotation_succeeds_at(blocks: Seq<Tile>, shape: Shape, tiles: Seq<Tile>, attempt: int) -> bool {
    &&& 0 <= attempt < ROTATION_ATTEMPTS
    &&& attempts_fail_before(blocks, shape, tiles, attempt)
    &&& is_legal_at(rotation_candidate(blocks, shape, attempt), tiles)
}

/// Whether the rotation of a piece has to be given up: none of the attempts
/// is legal.
pub open spec fn rotation_fails(blocks: Seq<Tile>, shape: Shape, tiles: Seq<Tile>) -> bool {
    attempts_fail_before(blocks, shape, tiles, ROTATION_ATTEMPTS as int)
}

/// The first attempt from `from` on at which the rotated piece is legal, if
/// there is one.
pub open spec fn first_legal_attempt(blocks: Seq<Tile>, shape: Shape, tiles: Seq<Tile>, from: int) -> Option<int>
    decreases ROTATION_ATTEMPTS - from,
{
    if from < 0 || from >= ROTATION_ATTEMPTS {
        None
    } else if is_legal_at(rotation_candidate(blocks, shape, from), tiles) {
        Some(from)
    } else {
        first_legal_attempt(blocks, shape, tiles, from + 1)
    }
}

/// The cells of a piece after a rotation request: those of the first legal
/// attempt, or the cells it had where every attempt is illegal.
pub open spec fn rotation_result(blocks: Seq<Tile>, shape: Shape, tiles: Seq<Tile>) -> Seq<(int, int)> {
    match first_legal_attempt(blocks, shape, tiles, 0) {
        Some(a) => rotation_candidate(blocks, shape, a),
        None => cells_of(blocks),
    }
}

/// The rotation gives up exactly when no attempt is legal, and otherwise
/// stops at the first legal one.
pub proof fn lemma_first_legal_attempt(blocks: Seq<Tile>, shape: Shape, tiles: Seq<Tile>)
    ensures
        first_legal_attempt(blocks, shape, tiles, 0).is_none() <==> rotation_fails(blocks, shape, tiles),
        first_legal_attempt(blocks, shape, tiles, 0) matches Some(a) ==> rotation_succeeds_at(
            blocks,
            shape,
            tiles,
            a,
        ),
{
    reveal_with_fuel(first_legal_attempt, 6);
    if first_legal_attempt(blocks, shape, tiles, 0).is_none() {
        assert forall|a: int| 0 <= a < ROTATION_ATTEMPTS implies !is_legal_at(
            #[trigger] rotation_candidate(blocks, shape, a),
            tiles,
        ) by {
            assert(a == 0 || a == 1 || a == 2 || a == 3 || a == 4);
        }
    } else {
        let a = first_legal_attempt(blocks, shape, tiles, 0).unwrap();
        assert(is_legal_at(rotation_candidate(blocks, shape, a), tiles));
        assert forall|b: int| 0 <= b < a implies !is_legal_at(
            #[trigger] rotation_candidate(blocks, shape, b),
            tiles,
        ) by {
            assert(b == 0 || b == 1 || b == 2 || b == 3);
        }
    }
}

/// Where tile `k` of the piece goes under a quarter turn, before any
/// correction.
fn turned_cell(blocks: &[Tile; 4], shape: Shape, k: usize) -> (r: (i64, i64))
    requires
        k < 4,
    ensures
        (r.0 as int, r.1 as int) == rotated_cell(blocks@, shape, k as int),
        -0x2_0000_0000 <= r.0 <= 0x2_0000_0000,
        -0x2_0000_0000 <= r.1 <= 0x2_0000_0000,
{
    let sum_x: i64 = blocks[0].0 as i64 + blocks[1].0 as i64 + blocks[2].0 as i64 + blocks[3].0 as i64;
    let sum_y: i64 = blocks[0].1 as i64 + blocks[1].1 as i64 + blocks[2].1 as i64 + blocks[3].1 as i64;
    let cx: i64 = sum_x / 4;
    let cy: i64 = sum_y / 4;
    let lift: i64 = match shape {
        Shape::O | Shape::L | Shape::J => 1,
        _ => 0,
    };
    (blocks[k].1 as i64 + (cx - cy), -(blocks[k].0 as i64) + (cx + cy) + lift)
}

/// The sideways correction of an attempt.
fn kick_of(attempt: usize) -> (r: i64)
    requires
        attempt < ROTATION_ATTEMPTS,
    ensures
        r == kick(attempt as int),
{
    if attempt == 0 {
        0
    } else if attempt == 1 {
        -1
    } else if attempt == 2 {
        -2
    } else if attempt == 3 {
        1
    } else {
        4
    }
}

/// Places the rotated piece at the given attempt, if that place is legal.
fn try_attempt(blocks: &[Tile; 4], shape: Shape, tiles: &Vec<Tile>, attempt: usize) -> (r: Option<[Tile; 4]>)
    requires
        attempt < ROTATION_ATTEMPTS,
    ensures
        r.is_some() == is_legal_at(rotation_candidate(blocks@, shape, attempt as int), tiles@),
        r matches Some(placed) ==> cells_of(placed@) == rotation_candidate(blocks@, shape, attempt as int),
{
    let dx = kick_of(attempt);
    let ghost cand = rotation_candidate(blocks@, shape, attempt as int);
    let mut placed: [Tile; 4] = *blocks;
    let mut k: usize = 0;
    while k < 4
        invariant
            k <= 4,
            attempt < ROTATION_ATTEMPTS,
            dx == kick(attempt as int),
            cand == rotation_candidate(blocks@, shape, attempt as int),
            forall|j: int| 0 <= j < k ==> cell_free(tiles@, (#[trigger] cand[j]).0, cand[j].1),
            forall|j: int| 0 <= j < k ==> ((#[trigger] placed@[j]).0 as int, placed@[j].1 as int) == cand[j],
        decreases 4 - k,
    {
        let cell = turned_cell(blocks, shape, k);
        let col: i64 = cell.0 + dx;
        let row: i64 = cell.1;
        assert(cand[k as int] == (col as int, row as int));
        if col < 0 || col >= GameBoard::COL_COUNT as i64 || row < 0 || row > i32::MAX as i64 {
            assert(!in_bounds(cand[k as int].0, cand[k as int].1));
            return None;
        }
        if is_occupied(tiles, col, row) {
            assert(occupied(tiles@, cand[k as int].0, cand[k as int].1));
            return None;
        }
        placed[k] = Tile(col as i32, row as i32);
        k += 1;
    }
    assert(cells_of(placed@) =~= cand);
    Some(placed)
}

/// Turns the piece in play by a quarter turn, if `rotate` asks for it and a
/// piece is in play.
///
/// The turned piece is tried where it falls, then one and two columns to the
/// left, then one and four columns to the right; it takes the first of these
/// places that is legal. Where none is, the piece stays exactly as it was.
/// Returns whether the piece was turned.
pub fn rotate_piece(rotate: bool, board: &mut GameBoard) -> (rotated: bool)
    ensures
        final(board).tiles == old(board).tiles,
        !rotate ==> !rotated && final(board).piece == old(board).piece,
        old(board).piece.is_none() ==> !rotated && final(board).piece.is_none(),
        rotate ==> (old(board).piece matches Some(p) ==> {
            &&& rotated == first_legal_attempt(p.blocks@, p.shape, old(board).tiles@, 0).is_some()
            &&& rotated == !rotation_fails(p.blocks@, p.shape, old(board).tiles@)
            &&& !rotated ==> final(board).piece == Some(p)
            &&& final(board).piece matches Some(q) && q.shape == p.shape && q.movable == p.movable
                && cells_of(q.blocks@) == rotation_result(p.blocks@, p.shape, old(board).tiles@)
        }),
        old(board).wf() ==> final(board).wf(),
{
    if !rotate {
        return false;
    }
    let piece = match board.piece {
        Some(p) => p,
        None => {
            return false;
        },
    };
    proof {
        lemma_first_legal_attempt(piece.blocks@, piece.shape, board.tiles@);
    }
    let mut attempt: usize = 0;
    while attempt < ROTATION_ATTEMPTS
        invariant
            rotate,
            attempt <= ROTATION_ATTEMPTS,
            *board == *old(board),
            board.piece == Some(piece),
            first_legal_attempt(piece.blocks@, piece.shape, board.tiles@, 0) == first_legal_attempt(
                piece.blocks@,
                piece.shape,
                board.tiles@,
                attempt as int,
            ),
        decreases ROTATION_ATTEMPTS - attempt,
    {
        match try_attempt(&piece.blocks, piece.shape, &board.tiles, attempt) {
            Some(placed) => {
                proof {
                    if old(board).wf() {
                        lemma_rotation_keeps_cells_apart(piece.blocks@, piece.shape, attempt as int);
                        lemma_cells_apart(placed@);
                    }
                }
                board.piece = Some(Piece { shape: piece.shape, blocks: placed, movable: piece.movable });
                return true;
            },
            None => {},
        }
        attempt += 1;
    }
    false
}

/// Whether the piece falls by itself in this tick: the fall timer has just
/// finished and the way down is open.
pub open spec fn falls(movable: Movable, auto: TimerState) -> bool {
    auto.just_finished() && movable.can_down
}

/// The step that the player's keys give the piece in this tick, as column and
/// row offsets. No step is taken while the pause between moves lasts. Left
/// goes before right, right before down, and a piece that has just fallen by
/// itself is not moved down again.
pub open spec fn manual_step(
    movable: Movable,
    manual: TimerState,
    fell: bool,
    move_left: bool,
    move_right: bool,
    move_down: bool,
) -> (int, int) {
    if !manual.finished {
        (0, 0)
    } else if move_left && movable.can_left {
        (-1, 0)
    } else if move_right && movable.can_right {
        (1, 0)
    } else if move_down && movable.can_down && !fell {
        (0, -1)
    } else {
        (0, 0)
    }
}

/// Whether each of the tiles has room for one step to the left, to the right
/// and down within the range of `i32`.
pub open spec fn can_step(blocks: Seq<Tile>) -> bool {
    forall|k: int|
        0 <= k < blocks.len() ==> i32::MIN < (#[trigger] blocks[k]).0 < i32::MAX && i32::MIN < blocks[k].1
}

/// Tells whether each of the four tiles has room for one step to the left,
/// to the right and down.
pub fn has_room(blocks: &[Tile; 4]) -> (r: bool)
    ensures
        r == can_step(blocks@),
{
    let mut k: usize = 0;
    while k < 4
        invariant
            k <= 4,
            forall|j: int| 0 <= j < k ==> i32::MIN < (#[trigger] blocks@[j]).0 < i32::MAX && i32::MIN < blocks@[j].1,
        decreases 4 - k,
    {
        let b = blocks[k];
        if b.0 == i32::MIN || b.0 == i32::MAX || b.1 == i32::MIN {
            assert(blocks@[k as int] == b);
            return false;
        }
        k += 1;
    }
    true
}

/// The cells of the tiles, each moved by `dx` columns and `dy` rows.
pub open spec fn stepped(blocks: Seq<Tile>, dx: int, dy: int) -> Seq<(int, int)> {
    Seq::new(blocks.len(), |k: int| (blocks[k].0 + dx, blocks[k].1 + dy))
}

/// The flags that gate the step asked for by the keys. They are the flags
/// that the piece carries. A piece that has just fallen stands one row below
/// the place for which it carries them, so there each way must be open at
/// that place as well: a flag counts only if the piece carries it and the
/// place below gives it.
pub open spec fn step_flags(piece: PieceView, tiles: Seq<Tile>, fell: bool) -> Movable {
    if fell {
        let below = Movable::derived(tiles_at(stepped(piece.blocks, 0, -1)), tiles);
        Movable {
            can_down: piece.movable.can_down && below.can_down,
            can_left: piece.movable.can_left && below.can_left,
            can_right: piece.movable.can_right && below.can_right,
        }
    } else {
        piece.movable
    }
}

/// The offsets by which the piece moves in a tick: what the keys give it, and
/// one row down if it fell by itself.
pub open spec fn movement(
    piece: PieceView,
    tiles: Seq<Tile>,
    manual: TimerState,
    fell: bool,
    move_left: bool,
    move_right: bool,
    move_down: bool,
) -> (int, int) {
    let step = manual_step(step_flags(piece, tiles, fell), manual, fell, move_left, move_right, move_down);
    (step.0, step.1 - (if fell {
        1int
    } else {
        0int
    }))
}

/// Advances the movement timers by `delta` nanoseconds and moves the piece in
/// play by what they and the player's keys allow.
///
/// The pause timer takes `delta`; the fall timer takes `delta` and the time
/// that the score adds. When the fall timer has just finished and the flags
/// that the piece carries say that the way down is open, the piece falls one
/// row. When the pause between moves is over, the piece takes one step as the
/// keys ask and the flags that it carries allow, and the pause starts again.
/// After a fall the step is taken only if the way is open at the place to
/// which the piece fell as well, so that the piece steps onto no landed tile.
/// The landed tiles are not touched. Returns whether the piece fell by
/// itself.
///
/// All four tiles move by the same offsets: at most one column to either
/// side and at most one row down, and each way only if the piece carries
/// the flag for it. A piece on legal cells whose carried flags are up to date
/// stays on legal cells.
pub fn move_piece(
    board: &mut GameBoard,
    timers: &mut GameTimers,
    score: &Score,
    delta: u64,
    move_left: bool,
    move_right: bool,
    move_down: bool,
) -> (dropped: bool)
    requires
        old(timers).can_move(delta, *score),
        old(board).piece matches Some(p) ==> can_step(p.blocks@),
    ensures
        final(board).tiles == old(board).tiles,
        final(timers).rm_pieces == old(timers).rm_pieces,
        timer_state(final(timers).auto) == timer_state(old(timers).auto).ticked(
            (delta + GameTimers::speed_offset(*score)) as nat,
        ),
        old(board).piece.is_none() ==> {
            &&& !dropped
            &&& final(board).piece.is_none()
            &&& timer_state(final(timers).manual) == timer_state(old(timers).manual).ticked(delta as nat)
        },
        old(board).piece matches Some(p) ==> {
            let manual = timer_state(old(timers).manual).ticked(delta as nat);
            let by = movement(p@, old(board).tiles@, manual, dropped, move_left, move_right, move_down);
            &&& dropped == falls(p.movable, timer_state(final(timers).auto))
            &&& timer_state(final(timers).manual) == (if by.0 == 0 && by.1 == (if dropped {
                -1int
            } else {
                0int
            }) {
                manual
            } else {
                manual.rewound()
            })
            &&& final(board).piece matches Some(q) && q.shape == p.shape && q.movable == p.movable && cells_of(
                q.blocks@,
            ) == stepped(p.blocks@, by.0, by.1)
            &&& -1 <= by.0 <= 1 && -1 <= by.1 <= 0
            &&& by.0 == -1 ==> p.movable.can_left
            &&& by.0 == 1 ==> p.movable.can_right
            &&& by.1 == -1 ==> p.movable.can_down
            &&& old(board).wf() && p.movable == Movable::derived(p.blocks@, old(board).tiles@)
                ==> final(board).wf()
        },
{
    advance(&mut timers.manual, delta as u128);
    let offset = GameTimers::calculate_score_speed_offset(score);
    advance(&mut timers.auto, delta as u128 + offset as u128);
    let piece = match board.piece {
        Some(p) => p,
        None => {
            return false;
        },
    };
    let fell = timer_just_finished(&timers.auto) && piece.movable.can_down;
    let mut blocks = piece.blocks;
    let mut flags = piece.movable;
    proof {
        assert(stepped(piece.blocks@, 0, 0) =~= cells_of(piece.blocks@));
        if old(board).wf() {
            lemma_allowed_step_is_legal(piece.blocks@, board.tiles@);
            lemma_cells_apart(piece.blocks@);
        }
    }
    if fell {
        let down: i32 = -1;
        assert(shift_fits(piece.blocks@, None, Some(down)));
        blocks = Tetromino::shift_piece(piece.blocks, None, Some(down));
        assert(shifted(piece.blocks@, None, Some(down)) =~= stepped(piece.blocks@, 0, -1));
        assert(blocks@ =~= tiles_at(stepped(piece.blocks@, 0, -1)));
        let below = Movable::derive(&blocks, &board.tiles);
        flags = Movable {
            can_down: flags.can_down && below.can_down,
            can_left: flags.can_left && below.can_left,
            can_right: flags.can_right && below.can_right,
        };
    }
    let ghost fallen = blocks@;
    let mut dx: i32 = 0;
    let mut dy: i32 = 0;
    if timer_finished(&timers.manual) {
        if move_left && flags.can_left {
            dx = -1;
            timer_reset(&mut timers.manual);
        } else if move_right && flags.can_right {
            dx = 1;
            timer_reset(&mut timers.manual);
        } else if move_down && flags.can_down && !fell {
            dy = -1;
            timer_reset(&mut timers.manual);
        }
    }
    assert(shift_fits(fallen, Some(dx), Some(dy)));
    let blocks = Tetromino::shift_piece(blocks, Some(dx), Some(dy));
    proof {
        let down: int = if fell {
            1
        } else {
            0
        };
        assert(shifted(fallen, Some(dx), Some(dy)) =~= stepped(fallen, dx as int, dy as int));
        assert(stepped(fallen, dx as int, dy as int) =~= stepped(piece.blocks@, dx as int, dy - down));
        if old(board).wf() && piece.movable == Movable::derived(piece.blocks@, board.tiles@) {
            assert(is_legal_at(cells_of(fallen), board.tiles@));
            lemma_allowed_step_is_legal(fallen, board.tiles@);
            assert(stepped(fallen, 0, 0) =~= cells_of(fallen));
            assert(is_legal_at(cells_of(blocks@), board.tiles@));
            assert(cells_of(blocks@).no_duplicates()) by {
                assert forall|a: int, b: int| 0 <= a < 4 && 0 <= b < 4 && a != b implies cells_of(blocks@)[a]
                    != cells_of(blocks@)[b] by {
                    assert(cells_of(piece.blocks@)[a] != cells_of(piece.blocks@)[b]);
                }
            }
            lemma_cells_apart(blocks@);
        }
    }
    board.piece = Some(Piece { shape: piece.shape, blocks, movable: piece.movable });
    fell
}

/// The shape of the piece in play, if there is one.
pub open spec fn shape_in_play(piece: Option<Piece>) -> Option<Shape> {
    match piece {
        Some(p) => Some(p.shape),
        None => None,
    }
}

/// Whether a request to hold takes effect: the key was pressed, no shape was
/// held since the last spawn, and a piece of some shape is in play.
pub open spec fn hold_applies(data: GameBoardData, hold: bool, shape: Option<Shape>) -> bool {
    hold && !data.held && shape.is_some()
}

/// What the player holds after a request to hold, with a piece of the given
/// shape in play.
pub open spec fn after_hold(data: GameBoardData, hold: bool, shape: Option<Shape>) -> GameBoardData {
    if hold_applies(data, hold, shape) {
        GameBoardData { held: true, held_piece: shape, next_piece: data.next_piece }
    } else {
        data
    }
}

/// Holds the shape of the piece in play when the player asks for it, once
/// between two spawns. Nothing happens without the key, without a piece in
/// play, or when a piece was held since the last spawn. The piece stays in
/// play. Returns whether a shape was held.
pub fn hold_piece(hold: bool, board: &GameBoard, data: &mut GameBoardData) -> (held: bool)
    ensures
        held == hold_applies(*old(data), hold, shape_in_play(board.piece)),
        *final(data) == after_hold(*old(data), hold, shape_in_play(board.piece)),
{
    if data.held || !hold {
        return false;
    }
    match board.piece {
        Some(p) => {
            data.hold(p.shape);
            true
        },
        None => false,
    }
}

/// Between two spawns only the first request to hold has an effect: after a
/// request that took effect, a further request changes nothing, whatever piece
/// is in play by then.
pub proof fn lemma_hold_once(data: GameBoardData, first: Option<Shape>, hold: bool, second: Option<Shape>)
    requires
        hold_applies(data, true, first),
    ensures
        !hold_applies(after_hold(data, true, first), hold, second),
        after_hold(after_hold(data, true, first), hold, second) == after_hold(data, true, first),
{
}

/// What the player asks of the game as a whole.
#[derive(Clone, Copy, Debug, PartialEq, Eq, Structural)]
pub enum GameEvent {
    /// Pause the game, or let it go on.
    PlayPause,
    /// Switch the sound off or on.
    ToggleMute,
    /// Start a new game.
    NewGame,
    /// Leave the application.
    Quit,
}

/// The states that are asked for, and whether the application is to exit.
pub struct Requests {
    /// The application state asked for, if any.
    pub app_state: Option<AppState>,
    /// The game state asked for, if any.
    pub game_state: Option<GameState>,
    /// How often the application was asked to exit.
    pub exits: nat,
}

/// What one event makes of the requested states.
///
/// While the application is asked to be in a game, any event switches
/// between playing and paused, and does nothing in another game state.
/// Otherwise a new game asks for the game screen and a restart, and quitting
/// asks the application to exit.
pub open spec fn after_event(event: GameEvent, before: Requests) -> Requests {
    if before.app_state == Some(AppState::InGame) {
        if before.game_state == Some(GameState::Playing) {
            Requests { game_state: Some(GameState::Paused), ..before }
        } else if before.game_state == Some(GameState::Paused) {
            Requests { game_state: Some(GameState::Playing), ..before }
        } else {
            before
        }
    } else if event == GameEvent::NewGame {
        Requests { app_state: Some(AppState::InGame), game_state: Some(GameState::Restarting), ..before }
    } else if event == GameEvent::Quit {
        Requests { exits: before.exits + 1, ..before }
    } else {
        before
    }
}

/// What a sequence of events makes of the requested states, one event after
/// the other.
pub open spec fn after_events(events: Seq<GameEvent>, before: Requests) -> Requests
    decreases events.len(),
{
    if events.len() == 0 {
        before
    } else {
        after_event(events.last(), after_events(events.drop_last(), before))
    }
}

/// Applies one event to the requested states. Returns whether the
/// application is asked to exit.
pub fn handle_game_event(
    event: GameEvent,
    app_state: &mut Option<AppState>,
    game_state: &mut Option<GameState>,
) -> (exit: bool)
    ensures
        ({
            let before = Requests { app_state: *old(app_state), game_state: *old(game_state), exits: 0 };
            let after = after_event(event, before);
            &&& *final(app_state) == after.app_state
            &&& *final(game_state) == after.game_state
            &&& exit == (after.exits == 1)
        }),
{
    let in_game = match *app_state {
        Some(AppState::InGame) => true,
        _ => false,
    };
    if in_game {
        match *game_state {
            Some(GameState::Playing) => {
                *game_state = Some(GameState::Paused);
            },
            Some(GameState::Paused) => {
                *game_state = Some(GameState::Playing);
            },
            _ => {},
        }
        false
    } else {
        match event {
            GameEvent::NewGame => {
                *app_state = Some(AppState::InGame);
                *game_state = Some(GameState::Restarting);
                false
            },
            GameEvent::Quit => true,
            _ => false,
        }
    }
}

/// Applies the events of a tick, in order, to the requested states. Returns
/// how often the application was asked to exit.
pub fn handle_game_events(
    events: &Vec<GameEvent>,
    app_state: &mut Option<AppState>,
    game_state: &mut Option<GameState>,
) -> (exits: usize)
    ensures
        ({
            let before = Requests { app_state: *old(app_state), game_state: *old(game_state), exits: 0 };
            let after = after_events(events@, before);
            &&& *final(app_state) == after.app_state
            &&& *final(game_state) == after.game_state
            &&& exits == after.exits
        }),
{
    let ghost before = Requests { app_state: *old(app_state), game_state: *old(game_state), exits: 0 };
    let mut exits: usize = 0;
    let mut i: usize = 0;
    while i < events.len()
        invariant
            i <= events.len(),
            exits <= i,
            before == (Requests { app_state: *old(app_state), game_state: *old(game_state), exits: 0 }),
            after_events(events@.take(i as int), before) == (Requests {
                app_state: *app_state,
                game_state: *game_state,
                exits: exits as nat,
            }),
        decreases events.len() - i,
    {
        proof {
            assert(events@.take(i + 1).drop_last() =~= events@.take(i as int));
            assert(events@.take(i + 1).last() == events@[i as int]);
        }
        if handle_game_event(events[i], app_state, game_state) {
            exits += 1;
        }
        i += 1;
    }
    assert(events@.take(events@.len() as int) =~= events@);
    exits
}

/// The event that the keys pressed in this tick stand for: the pause key
/// goes before the key for a new game, and that before the mute key.
pub fn emit_game_events(pause_pressed: bool, new_game_pressed: bool, mute_pressed: bool) -> (event: Option<
    GameEvent,
>)
    ensures
        event == (if pause_pressed {
            Some(GameEvent::PlayPause)
        } else if new_game_pressed {
            Some(GameEvent::NewGame)
        } else if mute_pressed {
            Some(GameEvent::ToggleMute)
        } else {
            None
        }),
{
    if pause_pressed {
        Some(GameEvent::PlayPause)
    } else if new_game_pressed {
        Some(GameEvent::NewGame)
    } else if mute_pressed {
        Some(GameEvent::ToggleMute)
    } else {
        None
    }
}

/// Tells whether the keys ask the application to quit: control or the system
/// key held while `W` is pressed, or alt held while `F4` is pressed.
pub fn handle_quit(ctrl: bool, alt: bool, win: bool, w_pressed: bool, f4_pressed: bool) -> (quit: bool)
    ensures
        quit == ((ctrl && w_pressed) || (alt && f4_pressed) || (win && w_pressed)),
{
    (ctrl && w_pressed) || (alt && f4_pressed) || (win && w_pressed)
}

} // verus!
