//! A whole game: everything that a game holds, and what one tick of the
//! simulation makes of it.
//!
//! A tick runs in a fixed order: the player's requests are carried out
//! (moving, turning, holding), the moves open to the piece are derived anew,
//! a piece that has landed joins the landed tiles, full rows are cleared, the
//! end of the game is looked for, and the next piece enters play.
use crate::board::{
    check_full_line, collapse, count_full_rows, detect_game_over, full_rows, grace_is_over,
    lemma_full_rows_finite, reaches_top, remove_piece_component, GameBoard, GameBoardData,
};
use crate::keymap::{
    after_hold, can_step, falls, has_room, hold_piece, move_piece, movement, rotate_piece, rotation_result,
    stepped,
};
use crate::score::{Score, MAX_ROWS_CLEARED};
use crate::state::{AppState, GameState};
use crate::tetromino::{
    all_entering, cell_free, cells_of, is_bag, refilled, spawn_gives, spawn_next_piece, tiles_at, Movable,
    NextTetromino, Piece, PieceView, Queue, Shape, Tetromino, Tile,
};
use crate::timers::{max_tick, timer_state, GameTimers, Mode, TimerState};
use vstd::prelude::*;

verus! {

/// Everything that a game holds.
#[derive(Debug)]
pub struct Game {
    /// The board: the piece in play and the landed tiles.
    pub board: GameBoard,
    /// What the player holds, and which shape is shown as the next.
    pub data: GameBoardData,
    /// The pieces to come.
    pub queue: Queue,
    /// The score.
    pub score: Score,
    /// The timers that gate movement.
    pub timers: GameTimers,
    /// The preview of the next piece.
    pub preview: NextTetromino,
}

/// What the player asks for in one tick.
#[derive(Clone, Copy, Debug, PartialEq, Eq, Structural)]
pub struct Intents {
    /// Move the piece one column to the left.
    pub move_left: bool,
    /// Move the piece one column to the right.
    pub move_right: bool,
    /// Move the piece one row down.
    pub move_down: bool,
    /// Turn the piece.
    pub rotate: bool,
    /// Hold the shape of the piece.
    pub hold: bool,
    /// Let a piece that rests on something land at once.
    pub hard_drop: bool,
}

/// What happened in one tick that others may want to react to.
#[derive(Clone, Copy, Debug, PartialEq, Eq, Structural)]
pub struct Events {
    /// The piece fell one row by itself.
    pub dropped: bool,
    /// The piece landed.
    pub landed: bool,
    /// How many rows were cleared.
    pub cleared: usize,
    /// The landed tiles have reached the top: the game is over.
    pub game_over: bool,
}

/// What a game is: the piece in play, the landed tiles, what the player
/// holds, the queue, the score, what the three timers hold, and the tiles of
/// the preview.
pub struct GameView {
    /// The piece in play.
    pub piece: Option<PieceView>,
    /// The landed tiles, in the order in which they were placed.
    pub tiles: Seq<Tile>,
    /// What the player holds, and which shape is shown as the next.
    pub data: GameBoardData,
    /// The pieces to come, the next one first.
    pub queue: Seq<Tetromino>,
    /// The score.
    pub score: Score,
    /// What the timer of the pause between moves holds.
    pub manual: TimerState,
    /// What the timer of the fall holds.
    pub auto: TimerState,
    /// What the timer of the grace period holds.
    pub rm_pieces: TimerState,
    /// The tiles of the preview.
    pub preview: Seq<Tile>,
}

/// The piece in play as its view, if there is one.
pub open spec fn piece_view(piece: Option<Piece>) -> Option<PieceView> {
    match piece {
        Some(p) => Some(p@),
        None => None,
    }
}

impl View for Game {
    type V = GameView;

    open spec fn view(&self) -> GameView {
        GameView {
            piece: piece_view(self.board.piece),
            tiles: self.board.tiles@,
            data: self.data,
            queue: self.queue@,
            score: self.score,
            manual: timer_state(self.timers.manual),
            auto: timer_state(self.timers.auto),
            rm_pieces: timer_state(self.timers.rm_pieces),
            preview: self.preview.tiles@,
        }
    }
}

impl GameView {
    /// The game after the request to turn the piece: the piece takes the
    /// first legal place of its turn, or stays where none is legal.
    #[verifier::opaque]
    pub open spec fn turned(self, rotate: bool) -> GameView {
        match self.piece {
            Some(p) if rotate => GameView {
                piece: Some(PieceView { blocks: tiles_at(rotation_result(p.blocks, p.shape, self.tiles)), ..p }),
                ..self
            },
            _ => self,
        }
    }

    /// The time that the fall timer takes in a tick of `delta`.
    pub open spec fn fall_time(self, delta: u64) -> nat {
        (delta + GameTimers::speed_offset(self.score)) as nat
    }

    /// Whether the piece falls by itself in a tick of `delta`.
    #[verifier::opaque]
    pub open spec fn drops(self, delta: u64) -> bool {
        self.piece matches Some(p) && falls(p.movable, self.auto.ticked(self.fall_time(delta)))
    }

    /// The game after the timers of movement have taken `delta` and the piece
    /// has fallen and stepped as they, its flags and the keys allow.
    #[verifier::opaque]
    pub open spec fn moved(self, delta: u64, move_left: bool, move_right: bool, move_down: bool) -> GameView {
        let manual = self.manual.ticked(delta as nat);
        let auto = self.auto.ticked(self.fall_time(delta));
        match self.piece {
            Some(p) => {
                let fell = self.drops(delta);
                let by = movement(p, self.tiles, manual, fell, move_left, move_right, move_down);
                let stands = by.0 == 0 && by.1 == (if fell {
                    -1int
                } else {
                    0int
                });
                GameView {
                    piece: Some(PieceView { blocks: tiles_at(stepped(p.blocks, by.0, by.1)), ..p }),
                    manual: if stands {
                        manual
                    } else {
                        manual.rewound()
                    },
                    auto,
                    ..self
                }
            },
            None => GameView { manual, auto, ..self },
        }
    }

    /// The shape of the piece in play, if there is one.
    pub open spec fn shape(self) -> Option<Shape> {
        match self.piece {
            Some(p) => Some(p.shape),
            None => None,
        }
    }

    /// The game after the request to hold.
    #[verifier::opaque]
    pub open spec fn held(self, hold: bool) -> GameView {
        GameView { data: after_hold(self.data, hold, self.shape()), ..self }
    }

    /// The game with the moves open to the piece derived anew.
    #[verifier::opaque]
    pub open spec fn refreshed(self) -> GameView {
        match self.piece {
            Some(p) => GameView {
                piece: Some(PieceView { movable: Movable::derived(p.blocks, self.tiles), ..p }),
                ..self
            },
            None => self,
        }
    }

    /// Whether the piece rests on something.
    pub open spec fn grounded(self) -> bool {
        self.piece matches Some(p) && !p.movable.can_down
    }

    /// Whether the piece lands in a tick of `delta`.
    #[verifier::opaque]
    pub open spec fn lands(self, delta: u64, hard_drop: bool) -> bool {
        self.grounded() && grace_is_over(self.rm_pieces, delta as nat, hard_drop)
    }

    /// The game after a piece that rests on something has waited out its
    /// grace period or landed.
    #[verifier::opaque]
    pub open spec fn landed(self, delta: u64, hard_drop: bool) -> GameView {
        if self.lands(delta, hard_drop) {
            GameView {
                piece: None,
                tiles: self.tiles + self.piece.unwrap().blocks,
                rm_pieces: self.rm_pieces.ticked(delta as nat).rewound(),
                ..self
            }
        } else if self.grounded() {
            GameView { rm_pieces: self.rm_pieces.ticked(delta as nat), ..self }
        } else {
            self
        }
    }

    /// The game after its full rows were cleared and scored.
    #[verifier::opaque]
    pub open spec fn cleared(self) -> GameView {
        if full_rows(self.tiles).len() == 0 {
            self
        } else {
            GameView {
                tiles: collapse(self.tiles),
                score: self.score.after(full_rows(self.tiles).len() as int),
                ..self
            }
        }
    }

    /// The game after the refill check with `batch` at hand and the spawn:
    /// without a piece in play, the piece at the front of the queue enters
    /// with every move open, and the player may hold again.
    #[verifier::opaque]
    pub open spec fn spawned(self, batch: Seq<Tetromino>) -> GameView {
        let waiting = refilled(self.queue, batch);
        if self.piece.is_some() {
            GameView { queue: waiting, ..self }
        } else {
            GameView {
                piece: Some(
                    PieceView {
                        shape: waiting[0].shape,
                        blocks: waiting[0].blocks@,
                        movable: Movable { can_down: true, can_left: true, can_right: true },
                    },
                ),
                data: GameBoardData { held: false, ..self.data },
                queue: waiting.skip(1),
                ..self
            }
        }
    }

    /// The game with the preview in step with the front of the queue.
    #[verifier::opaque]
    pub open spec fn previewed(self) -> GameView {
        if NextTetromino::is_stale(self.data, self.queue) {
            GameView {
                data: GameBoardData { next_piece: Some(self.queue[0].shape), ..self.data },
                preview: tiles_at(NextTetromino::preview(self.queue[0].shape)),
                ..self
            }
        } else {
            self
        }
    }

    /// The game as it stands when the player's requests were carried out:
    /// with its flags up to date the piece has moved, then it was turned, then
    /// its shape was held.
    pub open spec fn after_requests(self, intents: Intents, delta: u64) -> GameView {
        self.refreshed().moved(delta, intents.move_left, intents.move_right, intents.move_down).turned(
            intents.rotate,
        ).held(intents.hold)
    }

    /// The game as it stands when the piece has had its chance to land.
    pub open spec fn after_landing(self, intents: Intents, delta: u64) -> GameView {
        self.after_requests(intents, delta).refreshed().landed(delta, intents.hard_drop)
    }

    /// The game after one tick, with `batch` at hand for a refill.
    pub open spec fn ticked(self, intents: Intents, delta: u64, batch: Seq<Tetromino>) -> GameView {
        self.after_landing(intents, delta).cleared().spawned(batch).previewed()
    }

    /// What happens in one tick.
    pub open spec fn events(self, intents: Intents, delta: u64) -> Events {
        let requested = self.after_requests(intents, delta);
        let landed = self.after_landing(intents, delta);
        Events {
            dropped: self.refreshed().drops(delta),
            landed: requested.refreshed().lands(delta, intents.hard_drop),
            cleared: full_rows(landed.tiles).len() as usize,
            game_over: reaches_top(landed.cleared().tiles),
        }
    }

    /// Whether one tick makes `after` of this game and gives `events`. Where
    /// the queue has run low, a batch drawn at random refills it: some batch
    /// of as many pieces as there are shapes, each at the place where pieces
    /// enter the board.
    pub open spec fn tick_gives(self, intents: Intents, delta: u64, after: GameView, events: Events) -> bool {
        &&& events == self.events(intents, delta)
        &&& self.queue.len() >= Shape::VARIANTS ==> after == self.ticked(intents, delta, Seq::empty())
        &&& self.queue.len() < Shape::VARIANTS ==> exists|batch: Seq<Tetromino>|
            is_bag(batch) && after == #[trigger] self.ticked(intents, delta, batch)
    }

    /// Whether each timer counts its finishes in full in a tick of `delta`:
    /// it runs once, or it reaches its duration fewer than 2^32 times.
    pub open spec fn counts(self, delta: u64) -> bool {
        self.moves_count(delta) && self.grace_counts(delta)
    }

    /// Whether the timers of movement count their finishes in full in a tick
    /// of `delta`.
    pub open spec fn moves_count(self, delta: u64) -> bool {
        &&& self.manual.mode == Mode::Once || self.manual.counts(delta as nat)
        &&& self.auto.mode == Mode::Once || self.auto.counts(self.fall_time(delta))
    }

    /// Whether the grace timer counts its finishes in full in a tick of
    /// `delta`.
    pub open spec fn grace_counts(self, delta: u64) -> bool {
        self.rm_pieces.mode == Mode::Once || self.rm_pieces.counts(delta as nat)
    }

    /// Whether this game differs from `other` in the piece at most.
    pub open spec fn same_but_piece(self, other: GameView) -> bool {
        self == (GameView { piece: self.piece, ..other })
    }

    /// Whether this game has the landed tiles, the score, the queue and the
    /// grace timer of `other`.
    pub open spec fn same_at_rest(self, other: GameView) -> bool {
        &&& self.tiles == other.tiles
        &&& self.score == other.score
        &&& self.queue == other.queue
        &&& self.rm_pieces == other.rm_pieces
    }

    /// Whether the game can take a tick of `delta`: the timers can, the piece
    /// has room for a step within the range of its coordinates, the score
    /// has room for the rows of one landing, and no row is full.
    pub open spec fn can_tick(self, delta: u64) -> bool {
        &&& self.manual.can_tick(delta as nat)
        &&& self.auto.can_tick(self.fall_time(delta))
        &&& self.rm_pieces.can_tick(delta as nat)
        &&& self.piece matches Some(p) ==> can_step(p.blocks)
        &&& self.score.admits(MAX_ROWS_CLEARED as int)
        &&& full_rows(self.tiles) == Set::<i32>::empty()
    }
}

impl Game {
    /// Whether the game is as it should be: on the board no two landed tiles
    /// share a cell and none lies off the grid, and the piece in play covers
    /// four different free cells of the grid; no row is full; the pieces in
    /// the queue are at the place where pieces enter the board; and the
    /// timers run in an orderly way.
    pub open spec fn wf(self) -> bool {
        &&& self.board.wf()
        &&& full_rows(self.board.tiles@) == Set::<i32>::empty()
        &&& all_entering(self.queue@)
        &&& self.timers.steady()
    }

    /// A game that is as it should be can take every tick for which its
    /// score has room.
    pub proof fn lemma_wf_can_tick(self, delta: u64)
        requires
            self.wf(),
            self.score.admits(MAX_ROWS_CLEARED as int),
        ensures
            self@.can_tick(delta),
    {
        timer_state(self.timers.manual).lemma_steady(delta as nat);
        timer_state(self.timers.auto).lemma_steady(self@.fall_time(delta));
        timer_state(self.timers.rm_pieces).lemma_steady(delta as nat);
        if self.board.piece.is_some() {
            let p = self.board.piece.unwrap();
            assert forall|k: int| 0 <= k < p.blocks@.len() implies i32::MIN < (#[trigger] p.blocks@[k]).0
                < i32::MAX && i32::MIN < p.blocks@[k].1 by {
                assert(cell_free(self.board.tiles@, cells_of(p.blocks@)[k].0, cells_of(p.blocks@)[k].1));
            }
        }
    }

    /// Whether the flags stored with the piece in play are up to date: they
    /// are what the place of the piece and the landed tiles give.
    pub open spec fn flags_fresh(self) -> bool {
        self.board.piece matches Some(p) ==> p.movable == Movable::derived(p.blocks@, self.board.tiles@)
    }

    /// A game at its start: an empty board, nothing held, a first batch of
    /// pieces drawn at random in the queue, no score, the timers about to
    /// finish, and no preview.
    pub fn new() -> (r: Game)
        ensures
            r@.piece.is_none(),
            r@.tiles.len() == 0,
            r.board.wf(),
            r@.data == (GameBoardData { held: false, held_piece: None, next_piece: None }),
            is_bag(r@.queue),
            r@.score == (Score { points: 0, lines: 0 }),
            r.timers.wf(),
            r@.preview.len() == 0,
            r.wf(),
            forall|delta: u64| #[trigger] r@.can_tick(delta),
    {
        let mut queue = Queue::new();
        let batch = Tetromino::random_n(Shape::VARIANTS as usize);
        queue.extend(&batch);
        assert(queue@ =~= batch@);
        let board = GameBoard::new();
        proof {
            lemma_full_rows_finite(board.tiles@);
            assert(full_rows(board.tiles@) =~= Set::<i32>::empty());
        }
        Game {
            board,
            data: GameBoardData { held: false, held_piece: None, next_piece: None },
            queue,
            score: Score::new(),
            timers: GameTimers::new(),
            preview: NextTetromino::new(),
        }
    }

    /// Tells whether the game can take a tick of `delta` nanoseconds.
    pub fn is_ready(&self, delta: u64) -> (r: bool)
        ensures
            r == self@.can_tick(delta),
    {
        let room = match &self.board.piece {
            Some(p) => has_room(&p.blocks),
            None => true,
        };
        let points = self.score.points <= u32::MAX - 1200;
        let lines = self.score.lines <= u32::MAX - 4;
        proof {
            lemma_full_rows_finite(self.board.tiles@);
            if full_rows(self.board.tiles@).len() == 0 {
                assert(full_rows(self.board.tiles@) =~= Set::<i32>::empty());
            }
        }
        self.timers.check_move(delta, &self.score) && self.timers.check_land(delta) && room && points && lines
            && count_full_rows(&self.board.tiles) == 0
    }

    /// Carries out the request to turn the piece.
    fn turn(&mut self, rotate: bool)
        ensures
            final(self)@ == old(self)@.turned(rotate),
            final(self)@.same_at_rest(old(self)@),
            final(self).timers == old(self).timers,
            old(self).board.wf() ==> final(self).board.wf(),
    {
        reveal(GameView::turned);
        let ghost start = self@;
        let ghost first = self.board.piece;
        rotate_piece(rotate, &mut self.board);
        proof {
            if rotate && first.is_some() {
                let p = first.unwrap();
                let q = self.board.piece.unwrap();
                assert(q.blocks@ =~= tiles_at(rotation_result(p.blocks@, p.shape, start.tiles)));
            }
            assert(self@.piece == start.turned(rotate).piece);
        }
    }

    /// Advances the timers of movement and lets the piece fall and step.
    fn shift(&mut self, delta: u64, move_left: bool, move_right: bool, move_down: bool) -> (dropped: bool)
        requires
            old(self)@.manual.can_tick(delta as nat),
            old(self)@.auto.can_tick(old(self)@.fall_time(delta)),
            old(self)@.piece matches Some(p) ==> can_step(p.blocks),
        ensures
            final(self)@ == old(self)@.moved(delta, move_left, move_right, move_down),
            dropped == old(self)@.drops(delta),
            final(self)@.same_at_rest(old(self)@),
            old(self).board.wf() && old(self).flags_fresh() ==> final(self).board.wf(),
            old(self).timers.steady() && old(self)@.moves_count(delta) ==> final(self).timers.steady(),
    {
        proof {
            if self.timers.steady() {
                timer_state(self.timers.manual).lemma_steady(delta as nat);
                timer_state(self.timers.auto).lemma_steady(self@.fall_time(delta));
            }
        }
        reveal(GameView::moved);
        reveal(GameView::drops);
        let ghost start = self@;
        let ghost first = self.board.piece;
        let dropped = move_piece(
            &mut self.board,
            &mut self.timers,
            &self.score,
            delta,
            move_left,
            move_right,
            move_down,
        );
        proof {
            if first.is_some() {
                let p = first.unwrap();
                let q = self.board.piece.unwrap();
                let by = movement(
                    p@,
                    start.tiles,
                    start.manual.ticked(delta as nat),
                    dropped,
                    move_left,
                    move_right,
                    move_down,
                );
                assert(q.blocks@ =~= tiles_at(stepped(p.blocks@, by.0, by.1)));
            }
            assert(self@.piece == start.moved(delta, move_left, move_right, move_down).piece);
        }
        dropped
    }

    /// Carries out the request to hold.
    fn hold(&mut self, hold: bool)
        ensures
            final(self)@ == old(self)@.held(hold),
            final(self)@.same_at_rest(old(self)@),
            final(self).board == old(self).board,
            final(self).timers == old(self).timers,
    {
        reveal(GameView::held);
        hold_piece(hold, &self.board, &mut self.data);
    }

    /// Derives the moves open to the piece anew.
    fn refresh(&mut self)
        ensures
            final(self)@ == old(self)@.refreshed(),
            final(self)@.same_at_rest(old(self)@),
            final(self)@.manual == old(self)@.manual,
            final(self)@.auto == old(self)@.auto,
            final(self)@.piece matches Some(p) ==> old(self)@.piece matches Some(q) && p.blocks == q.blocks,
            final(self).flags_fresh(),
            final(self).timers == old(self).timers,
            old(self).board.wf() ==> final(self).board.wf(),
    {
        reveal(GameView::refreshed);
        Movable::update_pieces(&mut self.board);
    }

    /// Lets a piece that rests on something land when its grace period is
    /// over.
    fn land(&mut self, delta: u64, hard_drop: bool) -> (landed: bool)
        requires
            old(self)@.rm_pieces.can_tick(delta as nat),
            full_rows(old(self)@.tiles) == Set::<i32>::empty(),
        ensures
            final(self)@ == old(self)@.landed(delta, hard_drop),
            landed == old(self)@.lands(delta, hard_drop),
            full_rows(final(self)@.tiles).len() <= MAX_ROWS_CLEARED,
            final(self)@.score == old(self)@.score,
            final(self)@.queue == old(self)@.queue,
            final(self)@.piece.is_none() || full_rows(final(self)@.tiles) == Set::<i32>::empty(),
            old(self).board.wf() ==> final(self).board.wf(),
            old(self).timers.steady() && old(self)@.grace_counts(delta) ==> final(self).timers.steady(),
    {
        proof {
            if self.timers.steady() {
                timer_state(self.timers.rm_pieces).lemma_steady(delta as nat);
            }
        }
        reveal(GameView::landed);
        reveal(GameView::lands);
        remove_piece_component(&mut self.board, &mut self.timers, hard_drop, delta)
    }

    /// Clears and scores the full rows.
    fn clear(&mut self) -> (cleared: usize)
        requires
            old(self)@.score.admits(full_rows(old(self)@.tiles).len() as int),
        ensures
            final(self)@ == old(self)@.cleared(),
            cleared == full_rows(old(self)@.tiles).len(),
            full_rows(final(self)@.tiles) == Set::<i32>::empty(),
            final(self)@.queue == old(self)@.queue,
            final(self).timers == old(self).timers,
            old(self).board.wf() && (old(self)@.piece.is_none() || full_rows(old(self)@.tiles)
                == Set::<i32>::empty()) ==> final(self).board.wf(),
    {
        reveal(GameView::cleared);
        check_full_line(&mut self.score, &mut self.board)
    }

    /// Refills the queue where it has run low and lets the next piece enter
    /// play if none is in play.
    fn spawn(&mut self)
        ensures
            old(self)@.queue.len() >= Shape::VARIANTS ==> final(self)@ == old(self)@.spawned(Seq::empty()),
            old(self)@.queue.len() < Shape::VARIANTS ==> exists|batch: Seq<Tetromino>|
                is_bag(batch) && final(self)@ == #[trigger] old(self)@.spawned(batch),
            final(self)@.piece.is_some(),
            final(self)@.queue.len() >= Shape::VARIANTS - 1,
            final(self)@.tiles == old(self)@.tiles,
            final(self).timers == old(self).timers,
            all_entering(old(self)@.queue) ==> all_entering(final(self)@.queue),
            old(self).board.wf() && all_entering(old(self)@.queue) && !reaches_top(old(self)@.tiles)
                ==> final(self).board.wf(),
    {
        reveal(GameView::spawned);
        let ghost start = self@;
        let ghost first = self.board.piece;
        let ghost held = self.data;
        spawn_next_piece(&mut self.board, &mut self.data, &mut self.queue);
        proof {
            if start.queue.len() < Shape::VARIANTS {
                let batch = choose|batch: Seq<Tetromino>|
                    is_bag(batch) && #[trigger] spawn_gives(
                        first,
                        held,
                        start.queue + batch,
                        self.board.piece,
                        self.data,
                        self.queue@,
                    );
                assert(self@ == start.spawned(batch));
            } else {
                assert(self@ == start.spawned(Seq::empty()));
            }
        }
    }

    /// Brings the preview in step with the front of the queue.
    fn show_next(&mut self)
        requires
            old(self)@.queue.len() > 0,
        ensures
            final(self)@ == old(self)@.previewed(),
            final(self)@.piece == old(self)@.piece,
            final(self)@.tiles == old(self)@.tiles,
            final(self)@.queue == old(self)@.queue,
            final(self).board == old(self).board,
            final(self).timers == old(self).timers,
    {
        reveal(GameView::previewed);
        let ghost start = self@;
        let changed = self.preview.update(&self.queue, &mut self.data);
        proof {
            if changed {
                assert(self.preview.tiles@ =~= tiles_at(NextTetromino::preview(self.queue@[0].shape)));
            }
            assert(self@.data == start.previewed().data);
        }
    }

    /// Runs one tick of `delta` nanoseconds.
    ///
    /// In this order: with its flags brought up to date, the piece falls and
    /// steps, is turned, and its shape is held, as the player asks and the
    /// rules allow; the moves open to the piece are derived anew; a piece that
    /// rests on something lands when its grace period is over; full rows are
    /// cleared and scored; where the landed tiles have reached the top, the
    /// end of the game is asked for in `app_state` and `game_state`; the queue
    /// is refilled where it has run low, and the next piece enters play if
    /// none is in play; the preview is brought in step with the queue.
    ///
    /// After a tick a piece is in play and no row is full. A game that is as
    /// it should be stays so, unless it is over or a timer finishes 2^32 times
    /// in this one tick.
    pub fn tick(
        &mut self,
        intents: &Intents,
        delta: u64,
        app_state: &mut Option<AppState>,
        game_state: &mut Option<GameState>,
    ) -> (events: Events)
        requires
            old(self)@.can_tick(delta),
        ensures
            old(self)@.tick_gives(*intents, delta, final(self)@, events),
            events.game_over ==> *final(app_state) == Some(AppState::GameOver) && *final(game_state) == Some(
                GameState::Quitting,
            ),
            !events.game_over ==> *final(app_state) == *old(app_state) && *final(game_state) == *old(game_state),
            final(self)@.piece.is_some(),
            full_rows(final(self)@.tiles) == Set::<i32>::empty(),
            final(self)@.queue.len() >= Shape::VARIANTS - 1,
            old(self).wf() && old(self)@.counts(delta) && !events.game_over ==> final(self).wf(),
    {
        let ghost start = self@;
        self.refresh();
        let dropped = self.shift(delta, intents.move_left, intents.move_right, intents.move_down);
        self.turn(intents.rotate);
        self.hold(intents.hold);
        self.refresh();
        let landed = self.land(delta, intents.hard_drop);
        let cleared = self.clear();
        let ghost swept = self@;
        let game_over = detect_game_over(&self.board, app_state, game_state);
        self.spawn();
        let ghost entered = self@;
        self.show_next();
        proof {
            assert(swept == start.after_landing(*intents, delta).cleared());
            if start.queue.len() < Shape::VARIANTS {
                let batch = choose|batch: Seq<Tetromino>| is_bag(batch) && entered == #[trigger] swept.spawned(batch);
                assert(self@ == start.ticked(*intents, delta, batch));
            }
        }
        Events { dropped, landed, cleared, game_over }
    }

    /// Runs one tick of `delta` nanoseconds if the game can take it, as
    /// [`Game::tick`] does. A game that cannot take the tick stays as it is,
    /// and nothing is asked of the states.
    pub fn try_tick(
        &mut self,
        intents: &Intents,
        delta: u64,
        app_state: &mut Option<AppState>,
        game_state: &mut Option<GameState>,
    ) -> (events: Option<Events>)
        ensures
            events.is_some() == old(self)@.can_tick(delta),
            events.is_none() ==> final(self)@ == old(self)@,
            events.is_none() ==> *final(app_state) == *old(app_state),
            events.is_none() ==> *final(game_state) == *old(game_state),
            events matches Some(e) ==> {
                &&& old(self)@.tick_gives(*intents, delta, final(self)@, e)
                &&& e.game_over ==> *final(app_state) == Some(AppState::GameOver) && *final(game_state) == Some(
                    GameState::Quitting,
                )
                &&& !e.game_over ==> *final(app_state) == *old(app_state)
                &&& !e.game_over ==> *final(game_state) == *old(game_state)
                &&& final(self)@.piece.is_some()
                &&& full_rows(final(self)@.tiles) == Set::<i32>::empty()
                &&& final(self)@.queue.len() >= Shape::VARIANTS - 1
                &&& old(self).wf() && old(self)@.counts(delta) && !e.game_over ==> final(self).wf()
            },
    {
        if self.is_ready(delta) {
            Some(self.tick(intents, delta, app_state, game_state))
        } else {
            None
        }
    }
}

} // verus!
