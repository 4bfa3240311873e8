//! The board: its dimensions, the landed tiles, the piece in play, and what
//! happens when a piece lands.
use crate::invariants::{
    lemma_collapse_keeps_tiles_wf, lemma_collapse_leaves_no_full_row, lemma_full_rows_below,
    lemma_landing_fills_few_rows, lemma_landing_keeps_tiles_wf, tiles_wf,
};
use crate::score::Score;
use crate::state::{AppState, GameState};
use crate::tetromino::{occupied, Piece, Queue, Shape, Tile};
use crate::timers::{advance, timer_just_finished, timer_reset, timer_state, GameTimers, TimerState};
use std::collections::{HashMap, HashSet};
use vstd::prelude::*;
use vstd::set_lib::*;
use vstd::std_specs::hash::*;

verus! {

/// The playing field: the piece that is falling, if there is one, and the
/// tiles that have landed.
#[derive(Debug)]
pub struct GameBoard {
    /// The piece in play. There is never more than one.
    pub piece: Option<Piece>,
    /// The landed tiles, in the order in which they were placed.
    pub tiles: Vec<Tile>,
}

/// What the player holds, and which shape comes next.
#[derive(Clone, Copy, Debug, PartialEq, Eq, Structural)]
pub struct GameBoardData {
    /// Has the player held a piece since the last piece was spawned?
    pub held: bool,
    /// The shape that the player is holding.
    pub held_piece: Option<Shape>,
    /// The shape shown as the next one to fall.
    pub next_piece: Option<Shape>,
}

impl Default for GameBoardData {
    fn default() -> (r: GameBoardData)
        ensures
            r == (GameBoardData { held: false, held_piece: None, next_piece: None }),
    {
        GameBoardData { held: false, held_piece: None, next_piece: None }
    }
}

impl GameBoardData {
    /// Records `piece` as held and uses up this round's hold.
    pub fn hold(&mut self, piece: Shape)
        ensures
            final(self).held,
            final(self).held_piece == Some(piece),
            final(self).next_piece == old(self).next_piece,
    {
        self.held = true;
        self.held_piece = Some(piece);
    }
}

impl GameBoard {
    /// How many cells wide the board is.
    pub const COL_COUNT: u8 = 10;

    /// How many cells tall the visible board is.
    pub const ROW_COUNT: u8 = 20;

    /// How many cells the visible board has.
    pub const SPACES: u8 = 200;

    /// An empty board with no piece in play.
    pub fn new() -> (r: GameBoard)
        ensures
            r.piece.is_none(),
            r.tiles@.len() == 0,
            r.wf(),
    {
        GameBoard { piece: None, tiles: Vec::new() }
    }
}

/// The columns of a row in which a landed tile lies.
pub open spec fn row_columns(tiles: Seq<Tile>, row: i32) -> Set<i32> {
    Set::new(|col: i32| occupied(tiles, col as int, row as int))
}

/// Whether a row is full: the number of distinct columns in which it holds a
/// tile is the width of the board.
pub open spec fn row_is_full(tiles: Seq<Tile>, row: i32) -> bool {
    row_columns(tiles, row).len() == GameBoard::COL_COUNT
}

/// The rows that are full.
pub open spec fn full_rows(tiles: Seq<Tile>) -> Set<i32> {
    Set::new(|row: i32| row_is_full(tiles, row))
}

/// The rows below `row`.
pub open spec fn below(row: i32) -> spec_fn(i32) -> bool {
    |r: i32| r < row
}

/// How many full rows lie below `row`.
pub open spec fn full_rows_below(tiles: Seq<Tile>, row: i32) -> nat {
    full_rows(tiles).filter(below(row)).len()
}

/// The tiles that outlive a line clear: those in rows that are not full.
pub open spec fn survives(tiles: Seq<Tile>) -> spec_fn(Tile) -> bool {
    |t: Tile| !row_is_full(tiles, t.1)
}

/// Where a surviving tile comes to rest: it keeps its column and drops by one
/// row for each full row below it.
pub open spec fn settles(tiles: Seq<Tile>) -> spec_fn(Tile) -> Tile {
    |t: Tile| Tile(t.0, (t.1 - full_rows_below(tiles, t.1)) as i32)
}

/// The landed tiles after a line clear: the tiles of full rows are gone, and
/// each of the others has dropped by the number of full rows below it. The
/// order of the tiles that stay is kept.
pub open spec fn collapse(tiles: Seq<Tile>) -> Seq<Tile> {
    tiles.filter(survives(tiles)).map_values(settles(tiles))
}

/// The columns of the tiles, in order.
pub open spec fn columns_of(tiles: Seq<Tile>) -> Seq<i32> {
    tiles.map_values(|t: Tile| t.0)
}

/// The rows of the tiles, in order.
pub open spec fn rows_of(tiles: Seq<Tile>) -> Seq<i32> {
    tiles.map_values(|t: Tile| t.1)
}

/// A row holds tiles in finitely many columns, all of them columns of some
/// tile.
pub proof fn lemma_row_columns_finite(tiles: Seq<Tile>, row: i32)
    ensures
        row_columns(tiles, row).finite(),
        row_columns(tiles, row).subset_of(columns_of(tiles).to_set()),
        row_columns(tiles, row).len() <= tiles.len(),
{
    let all = columns_of(tiles).to_set();
    assert forall|c: i32| row_columns(tiles, row).contains(c) implies all.contains(c) by {
        let i = choose|i: int| 0 <= i < tiles.len() && (#[trigger] tiles[i]).0 == c && tiles[i].1 == row;
        assert(columns_of(tiles)[i] == c);
    }
    vstd::seq_lib::seq_to_set_is_finite(columns_of(tiles));
    lemma_len_subset(row_columns(tiles, row), all);
    columns_of(tiles).lemma_cardinality_of_set();
}

/// Only finitely many rows are full, and each of them holds a tile.
pub proof fn lemma_full_rows_finite(tiles: Seq<Tile>)
    ensures
        full_rows(tiles).finite(),
        full_rows(tiles).subset_of(rows_of(tiles).to_set()),
        full_rows(tiles).len() <= tiles.len(),
{
    let all = rows_of(tiles).to_set();
    assert forall|r: i32| full_rows(tiles).contains(r) implies all.contains(r) by {
        lemma_row_columns_finite(tiles, r);
        let cols = row_columns(tiles, r);
        assert(cols.len() != 0);
        let c = cols.choose();
        assert(cols.contains(c));
        let i = choose|i: int| 0 <= i < tiles.len() && (#[trigger] tiles[i]).0 == c && tiles[i].1 == r;
        assert(rows_of(tiles)[i] == r);
    }
    vstd::seq_lib::seq_to_set_is_finite(rows_of(tiles));
    lemma_len_subset(full_rows(tiles), all);
    rows_of(tiles).lemma_cardinality_of_set();
}

/// Tells whether `value` is among `values`.
fn holds(values: &Vec<i32>, value: i32) -> (r: bool)
    ensures
        r == values@.contains(value),
{
    let mut i: usize = 0;
    while i < values.len()
        invariant
            i <= values.len(),
            forall|j: int| 0 <= j < i ==> values@[j] != value,
        decreases values.len() - i,
    {
        if values[i] == value {
            return true;
        }
        i += 1;
    }
    false
}

/// Tells whether a row is full.
pub fn is_full_row(tiles: &Vec<Tile>, row: i32) -> (r: bool)
    ensures
        r == row_is_full(tiles@, row),
{
    broadcast use group_hash_axioms;

    let mut seen: HashSet<i32> = HashSet::new();
    let mut i: usize = 0;
    while i < tiles.len()
        invariant
            i <= tiles.len(),
            seen@ =~= row_columns(tiles@.take(i as int), row),
        decreases tiles.len() - i,
    {
        let t = tiles[i];
        if t.1 == row {
            seen.insert(t.0);
        }
        proof {
            lemma_row_columns_grow(tiles@, i as int, row);
        }
        i += 1;
    }
    assert(tiles@.take(tiles@.len() as int) =~= tiles@);
    seen.len() == GameBoard::COL_COUNT as usize
}

/// What one more tile adds to the columns of a row: its column, where the
/// tile lies in that row.
proof fn lemma_row_columns_grow(tiles: Seq<Tile>, i: int, row: i32)
    requires
        0 <= i < tiles.len(),
    ensures
        row_columns(tiles.take(i + 1), row) == (if tiles[i].1 == row {
            row_columns(tiles.take(i), row).insert(tiles[i].0)
        } else {
            row_columns(tiles.take(i), row)
        }),
{
    let before = tiles.take(i);
    let after = tiles.take(i + 1);
    let grown = if tiles[i].1 == row {
        row_columns(before, row).insert(tiles[i].0)
    } else {
        row_columns(before, row)
    };
    assert forall|c: i32| row_columns(after, row).contains(c) <==> grown.contains(c) by {
        if row_columns(after, row).contains(c) {
            let j = choose|j: int| 0 <= j < after.len() && (#[trigger] after[j]).0 == c && after[j].1 == row;
            if j < i {
                assert(before[j].0 == c && before[j].1 == row);
            }
        }
        if row_columns(before, row).contains(c) {
            let j = choose|j: int| 0 <= j < before.len() && (#[trigger] before[j]).0 == c && before[j].1 == row;
            assert(after[j].0 == c && after[j].1 == row);
        }
        if tiles[i].1 == row && c == tiles[i].0 {
            assert(after[i].0 == c && after[i].1 == row);
        }
    }
    assert(row_columns(after, row) =~= grown);
}

/// Whether the map holds, for each row in which a tile lies, the columns in
/// which the row holds a tile, and nothing for the other rows.
pub open spec fn groups_columns(groups: Map<i32, HashSet<i32>>, tiles: Seq<Tile>) -> bool {
    &&& forall|row: i32| #[trigger] groups.contains_key(row) <==> rows_of(tiles).contains(row)
    &&& forall|row: i32| #[trigger] groups.contains_key(row) ==> groups[row]@ == row_columns(tiles, row)
}

/// Groups the columns of the tiles by their rows.
pub fn columns_by_row(tiles: &Vec<Tile>) -> (groups: HashMap<i32, HashSet<i32>>)
    ensures
        groups_columns(groups@, tiles@),
{
    broadcast use group_hash_axioms;

    let mut groups: HashMap<i32, HashSet<i32>> = HashMap::new();
    let mut i: usize = 0;
    assert(rows_of(tiles@.take(0)) =~= Seq::<i32>::empty());
    while i < tiles.len()
        invariant
            i <= tiles.len(),
            groups_columns(groups@, tiles@.take(i as int)),
        decreases tiles.len() - i,
    {
        let t = tiles[i];
        let ghost before = groups@;
        let ghost prefix = tiles@.take(i as int);
        let ghost next = tiles@.take(i + 1);
        let mut columns = match groups.remove(&t.1) {
            Some(columns) => columns,
            None => HashSet::new(),
        };
        proof {
            if !before.contains_key(t.1) {
                assert forall|c: i32| !row_columns(prefix, t.1).contains(c) by {
                    if row_columns(prefix, t.1).contains(c) {
                        let j = choose|j: int|
                            0 <= j < prefix.len() && (#[trigger] prefix[j]).0 == c && prefix[j].1 == t.1;
                        assert(rows_of(prefix)[j] == t.1);
                    }
                }
                assert(columns@ =~= row_columns(prefix, t.1));
            }
        }
        columns.insert(t.0);
        groups.insert(t.1, columns);
        proof {
            assert(next =~= prefix.push(t));
            assert(rows_of(next) =~= rows_of(prefix).push(t.1));
            lemma_row_columns_grow(tiles@, i as int, t.1);
            assert forall|row: i32| #[trigger] groups@.contains_key(row) <==> rows_of(next).contains(row) by {
                if rows_of(next).contains(row) {
                    let j = choose|j: int| 0 <= j < rows_of(next).len() && rows_of(next)[j] == row;
                    if j < i {
                        assert(rows_of(prefix)[j] == row);
                    }
                }
                if rows_of(prefix).contains(row) {
                    let j = choose|j: int| 0 <= j < rows_of(prefix).len() && rows_of(prefix)[j] == row;
                    assert(rows_of(next)[j] == row);
                }
                if row == t.1 {
                    assert(rows_of(next)[i as int] == row);
                }
            }
            assert forall|row: i32| #[trigger] groups@.contains_key(row) implies groups@[row]@ == row_columns(
                next,
                row,
            ) by {
                if row != t.1 {
                    lemma_row_columns_grow(tiles@, i as int, row);
                }
            }
        }
        i += 1;
    }
    assert(tiles@.take(tiles@.len() as int) =~= tiles@);
    groups
}

/// Picking from a sequence without repeats leaves a sequence without
/// repeats, made of the members that were picked.
pub proof fn lemma_filter_distinct<A>(s: Seq<A>, pred: spec_fn(A) -> bool)
    requires
        s.no_duplicates(),
    ensures
        s.filter(pred).no_duplicates(),
        s.filter(pred).to_set() == s.to_set().filter(pred),
        s.filter(pred).len() == s.to_set().filter(pred).len(),
    decreases s.len(),
{
    broadcast use vstd::seq_lib::group_seq_properties;

    if s.len() == 0 {
        assert(s.filter(pred).len() == 0) by {
            s.lemma_filter_len(pred);
        }
    } else {
        let rest = s.drop_last();
        let last = s.last();
        assert(s =~= rest.push(last));
        lemma_filter_distinct(rest, pred);
        rest.lemma_filter_push(last, pred);
        if pred(last) {
            if rest.filter(pred).contains(last) {
                rest.lemma_filter_contains_rev(pred, last);
                let j = choose|j: int| 0 <= j < rest.len() && rest[j] == last;
                assert(s[j] == s[s.len() - 1]);
            }
        }
    }
    assert forall|x: A| s.filter(pred).to_set().contains(x) <==> s.to_set().filter(pred).contains(x) by {
        if s.filter(pred).contains(x) {
            s.lemma_filter_contains_rev(pred, x);
            let k = choose|k: int| 0 <= k < s.filter(pred).len() && s.filter(pred)[k] == x;
            s.lemma_filter_pred(pred, k);
        }
        if s.contains(x) && pred(x) {
            let j = choose|j: int| 0 <= j < s.len() && s[j] == x;
            s.lemma_filter_contains(pred, j);
        }
    }
    assert(s.filter(pred).to_set() =~= s.to_set().filter(pred));
    s.filter(pred).unique_seq_to_set();
}

/// Lists the full rows, each of them once.
pub fn find_full_rows(tiles: &Vec<Tile>) -> (rows: Vec<i32>)
    ensures
        rows@.no_duplicates(),
        rows@.to_set() == full_rows(tiles@),
        rows@.len() == full_rows(tiles@).len(),
        rows@.len() <= tiles@.len(),
{
    broadcast use group_hash_axioms;

    let groups = columns_by_row(tiles);
    let mut rows: Vec<i32> = Vec::new();
    let mut found: HashSet<i32> = HashSet::new();
    let mut i: usize = 0;
    while i < tiles.len()
        invariant
            i <= tiles.len(),
            groups_columns(groups@, tiles@),
            rows@.no_duplicates(),
            found@ == rows@.to_set(),
            forall|k: int| 0 <= k < rows@.len() ==> row_is_full(tiles@, #[trigger] rows@[k]),
            forall|j: int| 0 <= j < i && row_is_full(tiles@, (#[trigger] tiles@[j]).1) ==> rows@.contains(tiles@[j].1),
        decreases tiles.len() - i,
    {
        let row = tiles[i].1;
        let ghost before = rows@;
        assert(rows_of(tiles@)[i as int] == row);
        if !found.contains(&row) {
            let full = match groups.get(&row) {
                Some(columns) => columns.len() == GameBoard::COL_COUNT as usize,
                None => false,
            };
            if full {
                found.insert(row);
                rows.push(row);
                proof {
                    assert(rows@[rows@.len() - 1] == row);
                    before.lemma_push_to_set_commute(row);
                    assert forall|j: int| 0 <= j < i + 1 && row_is_full(tiles@, (#[trigger] tiles@[j]).1) implies rows@.contains(tiles@[j].1) by {
                        if j < i {
                            let k = choose|k: int| 0 <= k < before.len() && before[k] == tiles@[j].1;
                            assert(rows@[k] == tiles@[j].1);
                        }
                    }
                }
            }
        }
        i += 1;
    }
    proof {
        lemma_full_rows_finite(tiles@);
        assert forall|r: i32| rows@.to_set().contains(r) <==> full_rows(tiles@).contains(r) by {
            if full_rows(tiles@).contains(r) {
                assert(rows_of(tiles@).to_set().contains(r));
                let j = choose|j: int| 0 <= j < rows_of(tiles@).len() && rows_of(tiles@)[j] == r;
                assert(tiles@[j].1 == r);
            }
        }
        assert(rows@.to_set() =~= full_rows(tiles@));
        rows@.unique_seq_to_set();
    }
    rows
}

/// Counts the full rows.
pub fn count_full_rows(tiles: &Vec<Tile>) -> (count: usize)
    ensures
        count == full_rows(tiles@).len(),
{
    find_full_rows(tiles).len()
}

/// Counts the listed rows that lie below `row`.
fn count_below(rows: &Vec<i32>, row: i32) -> (count: usize)
    ensures
        count == rows@.filter(below(row)).len(),
{
    let mut count: usize = 0;
    let mut i: usize = 0;
    while i < rows.len()
        invariant
            i <= rows.len(),
            count <= i,
            count == rows@.take(i as int).filter(below(row)).len(),
        decreases rows.len() - i,
    {
        proof {
            rows@.lemma_take_succ_push(i as int);
            rows@.take(i as int).lemma_filter_len_push(below(row), rows@[i as int]);
        }
        if rows[i] < row {
            count += 1;
        }
        i += 1;
    }
    proof {
        assert(rows@.take(rows@.len() as int) =~= rows@);
    }
    count
}

/// Clears the full rows and lets what lies above them drop.
///
/// Where no row is full, nothing changes and nothing is scored. Otherwise the
/// tiles of every full row are removed, each remaining tile drops by one row
/// for each full row that lay below it, and the score takes in the rows that
/// were cleared. The piece in play is not touched. Returns how many rows were
/// cleared.
///
/// More than four full rows at once cannot come about by landing pieces one
/// at a time; a board with more is not accepted.
pub fn check_full_line(score: &mut Score, board: &mut GameBoard) -> (cleared: usize)
    requires
        old(score).admits(full_rows(old(board).tiles@).len() as int),
    ensures
        cleared == full_rows(old(board).tiles@).len(),
        final(board).piece == old(board).piece,
        cleared == 0 ==> final(board).tiles@ == old(board).tiles@ && *final(score) == *old(score),
        cleared > 0 ==> final(board).tiles@ == collapse(old(board).tiles@) && *final(score) == old(score).after(
            cleared as int,
        ),
        full_rows(final(board).tiles@) == Set::<i32>::empty(),
        tiles_wf(old(board).tiles@) ==> tiles_wf(final(board).tiles@),
{
    let rows = find_full_rows(&board.tiles);
    let cleared = rows.len();
    if cleared == 0 {
        proof {
            lemma_full_rows_finite(board.tiles@);
            assert(full_rows(board.tiles@) =~= Set::<i32>::empty());
        }
        return 0;
    }
    proof {
        lemma_collapse_leaves_no_full_row(board.tiles@);
        if tiles_wf(board.tiles@) {
            lemma_collapse_keeps_tiles_wf(board.tiles@);
        }
    }
    score.update(cleared);
    let ghost tiles = board.tiles@;
    let mut kept: Vec<Tile> = Vec::new();
    let mut i: usize = 0;
    while i < board.tiles.len()
        invariant
            i <= board.tiles.len(),
            board.tiles@ == tiles,
            rows@.no_duplicates(),
            rows@.to_set() == full_rows(tiles),
            kept@ == tiles.take(i as int).filter(survives(tiles)).map_values(settles(tiles)),
        decreases board.tiles.len() - i,
    {
        let t = board.tiles[i];
        proof {
            tiles.lemma_take_succ_push(i as int);
            tiles.take(i as int).lemma_filter_push(t, survives(tiles));
            assert(rows@.contains(t.1) <==> rows@.to_set().contains(t.1));
        }
        if !holds(&rows, t.1) {
            let count = count_below(&rows, t.1);
            proof {
                lemma_filter_distinct(rows@, below(t.1));
                lemma_full_rows_below(tiles, t.1);
                tiles.take(i as int).filter(survives(tiles)).lemma_push_map_commute(settles(tiles), t);
            }
            kept.push(Tile(t.0, (t.1 as i64 - count as i64) as i32));
        }
        i += 1;
    }
    proof {
        assert(tiles.take(tiles.len() as int) =~= tiles);
    }
    board.tiles = kept;
    cleared
}

/// Whether a tile is shown or hidden.
#[derive(Clone, Copy, Debug, PartialEq, Eq, Structural)]
pub enum Visibility {
    /// The tile lies above the visible rows.
    Hidden,
    /// The tile lies on the visible board.
    Visible,
}

/// A wall of the frame around the board: the centre and the size of its
/// rectangle, in screen units.
#[derive(Clone, Copy, Debug, PartialEq, Eq, Structural)]
pub struct Wall {
    /// Horizontal position of the centre.
    pub x: i32,
    /// Vertical position of the centre.
    pub y: i32,
    /// Width of the rectangle.
    pub width: i32,
    /// Height of the rectangle.
    pub height: i32,
}

impl Wall {
    /// The wall with the given centre and size.
    pub open spec fn at(x: int, y: int, width: int, height: int) -> Wall {
        Wall { x: x as i32, y: y as i32, width: width as i32, height: height as i32 }
    }
}

/// Whether the game is over: a landed tile has reached the top row of the
/// visible board, or lies above it.
pub open spec fn reaches_top(tiles: Seq<Tile>) -> bool {
    exists|i: int| 0 <= i < tiles.len() && (#[trigger] tiles[i]).1 >= GameBoard::ROW_COUNT - 1
}

/// Whether the piece in play rests on something: there is one, and its way
/// down is closed.
pub open spec fn grounded(piece: Option<Piece>) -> bool {
    piece matches Some(p) && !p.movable.can_down
}

/// Whether a piece that rests on something lands in this tick, given the
/// grace timer before its tick: the grace period has just run out with this
/// tick, or the player pushes down.
pub open spec fn grace_is_over(rm_pieces: TimerState, delta: nat, down_pressed: bool) -> bool {
    rm_pieces.ticked(delta).just_finished() || down_pressed
}

/// Whether the piece in play lands in this tick: it rests on something, and
/// the grace period is over.
pub open spec fn lands(piece: Option<Piece>, timers: GameTimers, delta: nat, down_pressed: bool) -> bool {
    grounded(piece) && grace_is_over(timer_state(timers.rm_pieces), delta, down_pressed)
}

impl GameBoard {
    /// Thickness of the frame around the board, in screen units.
    pub const BORDER_THICKNESS: i32 = 10;

    /// The visibility of a tile in the given row: tiles above the last
    /// visible row are hidden.
    pub open spec fn visibility_at(row: i32) -> Visibility {
        if row > GameBoard::ROW_COUNT - 1 {
            Visibility::Hidden
        } else {
            Visibility::Visible
        }
    }

    /// The frame around the board: the left, right, top and bottom wall.
    /// The cells take 300 by 600 units around the origin; each wall is 10
    /// thick and lies just outside them, and the side walls reach over the
    /// ends of the other two.
    pub open spec fn frame() -> Seq<Wall> {
        seq![
            Wall::at(-155, 0, 10, 620),
            Wall::at(155, 0, 10, 620),
            Wall::at(0, 305, 300, 10),
            Wall::at(0, -305, 300, 10),
        ]
    }

    /// The four walls of the frame around the board: left, right, top and
    /// bottom.
    pub fn setup() -> (walls: [Wall; 4])
        ensures
            walls@ == GameBoard::frame(),
    {
        let half_width: i32 = (GameBoard::COL_COUNT as i32) * Tile::LENGTH / 2;
        let half_height: i32 = (GameBoard::ROW_COUNT as i32) * Tile::LENGTH / 2;
        let thickness: i32 = GameBoard::BORDER_THICKNESS;
        let walls = [
            Wall { x: -half_width - thickness / 2, y: 0, width: thickness, height: 2 * half_height + 2 * thickness },
            Wall { x: half_width + thickness / 2, y: 0, width: thickness, height: 2 * half_height + 2 * thickness },
            Wall { x: 0, y: half_height + thickness / 2, width: 2 * half_width, height: thickness },
            Wall { x: 0, y: -half_height - thickness / 2, width: 2 * half_width, height: thickness },
        ];
        assert(walls@ =~= GameBoard::frame());
        walls
    }

    /// Says for each tile of the piece in play whether it is shown: a tile
    /// above the last visible row is hidden. `None` without a piece in play.
    pub fn update_tile_visibility(board: &GameBoard) -> (shown: Option<[Visibility; 4]>)
        ensures
            shown.is_some() == board.piece.is_some(),
            shown.is_some() ==> forall|k: int|
                0 <= k < 4 ==> #[trigger] shown.unwrap()@[k] == GameBoard::visibility_at(
                    board.piece.unwrap().blocks@[k].1,
                ),
    {
        match board.piece {
            Some(p) => {
                Some(
                    [
                        GameBoard::visibility_of(p.blocks[0].1),
                        GameBoard::visibility_of(p.blocks[1].1),
                        GameBoard::visibility_of(p.blocks[2].1),
                        GameBoard::visibility_of(p.blocks[3].1),
                    ],
                )
            },
            None => None,
        }
    }

    /// The visibility of a tile in the given row.
    pub fn visibility_of(row: i32) -> (r: Visibility)
        ensures
            r == GameBoard::visibility_at(row),
    {
        if row > GameBoard::ROW_COUNT as i32 - 1 {
            Visibility::Hidden
        } else {
            Visibility::Visible
        }
    }
}

/// Tells whether the game is over, and if so asks for the states that end it:
/// the application goes to its game-over state and the game to quitting.
/// The game is over exactly when a landed tile lies in the top visible row or
/// above it. Otherwise the requested states stay as they are.
pub fn detect_game_over(
    board: &GameBoard,
    app_state: &mut Option<AppState>,
    game_state: &mut Option<GameState>,
) -> (over: bool)
    ensures
        over == reaches_top(board.tiles@),
        over ==> *final(app_state) == Some(AppState::GameOver) && *final(game_state) == Some(
            GameState::Quitting,
        ),
        !over ==> *final(app_state) == *old(app_state) && *final(game_state) == *old(game_state),
{
    let mut max_block_y: i32 = 0;
    let mut i: usize = 0;
    while i < board.tiles.len()
        invariant
            i <= board.tiles.len(),
            max_block_y >= 0,
            forall|j: int| 0 <= j < i ==> (#[trigger] board.tiles@[j]).1 <= max_block_y,
            max_block_y == 0 || exists|j: int| 0 <= j < i && (#[trigger] board.tiles@[j]).1 == max_block_y,
        decreases board.tiles.len() - i,
    {
        if board.tiles[i].1 > max_block_y {
            max_block_y = board.tiles[i].1;
        }
        i += 1;
    }
    if max_block_y >= GameBoard::ROW_COUNT as i32 - 1 {
        *app_state = Some(AppState::GameOver);
        *game_state = Some(GameState::Quitting);
        true
    } else {
        false
    }
}

/// Takes the piece in play off the player's hands once it has landed.
///
/// While the piece rests on something, the grace timer takes `delta`
/// nanoseconds. The piece lands when it rests on something and the grace
/// period has just run out, or the player pushes down. Its four tiles then
/// join the landed tiles, no piece is in play, and the grace timer starts
/// over. Returns whether the piece landed.
pub fn remove_piece_component(
    board: &mut GameBoard,
    timers: &mut GameTimers,
    down_pressed: bool,
    delta: u64,
) -> (landed: bool)
    requires
        grounded(old(board).piece) ==> old(timers).can_land(delta),
    ensures
        landed == lands(old(board).piece, *old(timers), delta as nat, down_pressed),
        final(timers).manual == old(timers).manual,
        final(timers).auto == old(timers).auto,
        timer_state(final(timers).rm_pieces) == (if landed {
            timer_state(old(timers).rm_pieces).ticked(delta as nat).rewound()
        } else if grounded(old(board).piece) {
            timer_state(old(timers).rm_pieces).ticked(delta as nat)
        } else {
            timer_state(old(timers).rm_pieces)
        }),
        !landed ==> final(board).piece == old(board).piece && final(board).tiles@ == old(board).tiles@,
        landed ==> final(board).piece.is_none() && final(board).tiles@ == old(board).tiles@ + old(
            board,
        ).piece.unwrap().blocks@,
        old(board).wf() ==> final(board).wf(),
        full_rows(old(board).tiles@) == Set::<i32>::empty() ==> full_rows(final(board).tiles@).len()
            <= crate::score::MAX_ROWS_CLEARED,
{
    let piece = match board.piece {
        Some(p) => p,
        None => {
            return false;
        },
    };
    proof {
        lemma_full_rows_finite(board.tiles@);
        if full_rows(board.tiles@) == Set::<i32>::empty() {
            lemma_landing_fills_few_rows(board.tiles@, piece.blocks@);
        }
        if board.wf() {
            lemma_landing_keeps_tiles_wf(board.tiles@, piece.blocks@);
        }
    }
    if piece.movable.can_down {
        return false;
    }
    advance(&mut timers.rm_pieces, delta as u128);
    if timer_just_finished(&timers.rm_pieces) || down_pressed {
        board.tiles.push(piece.blocks[0]);
        board.tiles.push(piece.blocks[1]);
        board.tiles.push(piece.blocks[2]);
        board.tiles.push(piece.blocks[3]);
        board.piece = None;
        timer_reset(&mut timers.rm_pieces);
        assert(board.tiles@ =~= old(board).tiles@ + piece.blocks@);
        true
    } else {
        false
    }
}

/// Wipes the game for a new start: no tile and no piece is left on the
/// board, the score is zero, and no piece waits in the queue. What the state
/// was before does not matter, so wiping twice is the same as wiping once.
pub fn clear_board(board: &mut GameBoard, score: &mut Score, queue: &mut Queue)
    ensures
        final(board).piece.is_none(),
        final(board).tiles@.len() == 0,
        final(board).wf(),
        final(score).points == 0,
        final(score).lines == 0,
        final(queue)@.len() == 0,
{
    Tile::clear_all(board);
    Score::reset(score);
    queue.clear();
}

} // verus!
