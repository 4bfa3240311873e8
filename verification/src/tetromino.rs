//! Tiles, the seven shapes, pieces in play, and the collision rules that say
//! where a piece may be.
use crate::board::{reaches_top, GameBoard, GameBoardData};
use crate::invariants::lemma_entering_is_legal;
use rand::Rng;
use std::collections::VecDeque;
use vstd::prelude::*;

verus! {

/// One grid cell: column first, row second. Row 0 is the bottom row of the
/// board and rows grow upwards.
#[derive(Clone, Copy, Debug, PartialEq, Eq, Structural)]
pub struct Tile(pub i32, pub i32);

/// A displacement in screen units from the centre of the board.
#[derive(Clone, Copy, Debug, PartialEq, Eq, Structural)]
pub struct Translation {
    /// To the right.
    pub x: i64,
    /// Upwards.
    pub y: i64,
}

impl Tile {
    /// Edge length of one grid cell, in screen units.
    pub const LENGTH: i32 = 30;

    /// Edge length of the coloured square drawn inside a cell.
    pub const STICKER_LENGTH: i32 = 28;

    /// Where the centre of this tile lies on screen, relative to the centre of
    /// the board: the board is `COL_COUNT` by `ROW_COUNT` cells of `LENGTH`.
    pub open spec fn spec_translation(self) -> Translation {
        Translation {
            x: ((2 * self.0 - GameBoard::COL_COUNT + 1) * (Tile::LENGTH / 2)) as i64,
            y: ((2 * self.1 - GameBoard::ROW_COUNT + 1) * (Tile::LENGTH / 2)) as i64,
        }
    }

    /// Screen position of the tile's centre: 30 units per cell, with the
    /// centre of the cell in column 0 and row 0 at -135 and -285.
    #[must_use]
    pub fn translation(&self) -> (r: Translation)
        ensures
            r == self.spec_translation(),
    {
        let half: i64 = (Tile::LENGTH / 2) as i64;
        let col: i64 = self.0 as i64;
        let row: i64 = self.1 as i64;
        Translation {
            x: (2 * col - (GameBoard::COL_COUNT as i64) + 1) * half,
            y: (2 * row - (GameBoard::ROW_COUNT as i64) + 1) * half,
        }
    }

    /// The tile moved by `delta_x` columns and `delta_y` rows, where `None`
    /// stands for no movement along that axis.
    pub open spec fn spec_shift(self, delta_x: Option<i32>, delta_y: Option<i32>) -> (int, int) {
        (
            self.0 + (match delta_x {
                Some(d) => d as int,
                None => 0,
            }),
            self.1 + (match delta_y {
                Some(d) => d as int,
                None => 0,
            }),
        )
    }

    /// Moves a tile by the given offsets. The moved coordinates have to be
    /// representable.
    pub fn shift(t: Tile, delta_x: Option<i32>, delta_y: Option<i32>) -> (r: Tile)
        requires
            fits_i32(t.spec_shift(delta_x, delta_y).0),
            fits_i32(t.spec_shift(delta_x, delta_y).1),
        ensures
            (r.0 as int, r.1 as int) == t.spec_shift(delta_x, delta_y),
    {
        let x: i32 = match delta_x {
            Some(d) => t.0 + d,
            None => t.0,
        };
        let y: i32 = match delta_y {
            Some(d) => t.1 + d,
            None => t.1,
        };
        Tile(x, y)
    }
}

impl From<[i32; 2]> for Tile {
    fn from(cell: [i32; 2]) -> (r: Tile) {
        Tile(cell[0], cell[1])
    }
}

impl vstd::std_specs::convert::FromSpecImpl<[i32; 2]> for Tile {
    open spec fn obeys_from_spec() -> bool {
        true
    }

    /// The tile at a cell given as column and row.
    open spec fn from_spec(cell: [i32; 2]) -> Tile {
        Tile(cell[0], cell[1])
    }
}

/// Whether an integer is a value of `i32`.
pub open spec fn fits_i32(v: int) -> bool {
    i32::MIN <= v <= i32::MAX
}

/// The seven kinds of piece.
#[derive(Clone, Copy, Debug, PartialEq, Eq, PartialOrd, Ord, Hash, Structural)]
pub enum Shape {
    /// Four blocks in a line.
    I,
    /// Three blocks in a line with a hook above the left end.
    J,
    /// Three blocks in a line with a hook above the right end.
    L,
    /// A two by two square.
    O,
    /// Two stacked pairs, the upper one offset to the right.
    S,
    /// Three blocks in a line with a fourth above the middle.
    T,
    /// Two stacked pairs, the upper one offset to the left.
    Z,
}

impl Shape {
    /// How many shapes there are.
    pub const VARIANTS: u32 = 7;

    /// The four cells of a shape in its base layout, at the bottom of the
    /// board and near its middle.
    pub open spec fn cells(self) -> Seq<Tile> {
        match self {
            Shape::I => seq![Tile(3, 0), Tile(4, 0), Tile(5, 0), Tile(6, 0)],
            Shape::J => seq![Tile(3, 1), Tile(3, 0), Tile(4, 0), Tile(5, 0)],
            Shape::L => seq![Tile(3, 0), Tile(4, 0), Tile(5, 0), Tile(5, 1)],
            Shape::O => seq![Tile(4, 1), Tile(4, 0), Tile(5, 1), Tile(5, 0)],
            Shape::S => seq![Tile(3, 0), Tile(4, 0), Tile(4, 1), Tile(5, 1)],
            Shape::T => seq![Tile(3, 0), Tile(4, 1), Tile(4, 0), Tile(5, 0)],
            Shape::Z => seq![Tile(3, 1), Tile(4, 1), Tile(4, 0), Tile(5, 0)],
        }
    }

    /// The shape with the given number, counting from `I` as 0 to `Z` as 6.
    pub open spec fn at(index: int) -> Shape {
        if index == 0 {
            Shape::I
        } else if index == 1 {
            Shape::J
        } else if index == 2 {
            Shape::L
        } else if index == 3 {
            Shape::O
        } else if index == 4 {
            Shape::S
        } else if index == 5 {
            Shape::T
        } else {
            Shape::Z
        }
    }

    /// The base layout of this shape.
    #[must_use]
    pub fn shape(&self) -> (r: [Tile; 4])
        ensures
            r@ == self.cells(),
    {
        Shape::shape_of(self)
    }

    /// The base layout of a shape.
    pub fn shape_of(other: &Shape) -> (r: [Tile; 4])
        ensures
            r@ == other.cells(),
    {
        let r = match other {
            Shape::I => [Tile(3, 0), Tile(4, 0), Tile(5, 0), Tile(6, 0)],
            Shape::J => [Tile(3, 1), Tile(3, 0), Tile(4, 0), Tile(5, 0)],
            Shape::L => [Tile(3, 0), Tile(4, 0), Tile(5, 0), Tile(5, 1)],
            Shape::O => [Tile(4, 1), Tile(4, 0), Tile(5, 1), Tile(5, 0)],
            Shape::S => [Tile(3, 0), Tile(4, 0), Tile(4, 1), Tile(5, 1)],
            Shape::T => [Tile(3, 0), Tile(4, 1), Tile(4, 0), Tile(5, 0)],
            Shape::Z => [Tile(3, 1), Tile(4, 1), Tile(4, 0), Tile(5, 0)],
        };
        assert(r@ =~= other.cells());
        r
    }

    /// The shape with the given number. Numbers from `VARIANTS` on name no
    /// shape.
    pub fn from_index(index: u32) -> (r: Option<Shape>)
        ensures
            r == (if index < Shape::VARIANTS {
                Some(Shape::at(index as int))
            } else {
                None
            }),
    {
        match index {
            0 => Some(Shape::I),
            1 => Some(Shape::J),
            2 => Some(Shape::L),
            3 => Some(Shape::O),
            4 => Some(Shape::S),
            5 => Some(Shape::T),
            6 => Some(Shape::Z),
            _ => None,
        }
    }
}

/// A shape together with the four cells it covers.
#[derive(Clone, Copy, Debug, PartialEq, Eq)]
pub struct Tetromino {
    /// The kind of piece.
    pub shape: Shape,
    /// The cells that make up the piece.
    pub blocks: [Tile; 4],
}

/// Which single-step moves are open to the piece in play. The flags are
/// derived from where the piece and the landed tiles are.
#[derive(Clone, Copy, Debug, PartialEq, Eq, Structural)]
pub struct Movable {
    /// May the piece move one row down?
    pub can_down: bool,
    /// May the piece move one column to the left?
    pub can_left: bool,
    /// May the piece move one column to the right?
    pub can_right: bool,
}

/// The piece in play: its shape, its four cells and the moves open to it.
#[derive(Clone, Copy, Debug, PartialEq, Eq)]
pub struct Piece {
    /// The kind of piece.
    pub shape: Shape,
    /// The cells the piece covers at the moment.
    pub blocks: [Tile; 4],
    /// The moves open to the piece, as last derived.
    pub movable: Movable,
}

/// What a piece in play is, with its cells as a sequence.
pub struct PieceView {
    /// The kind of piece.
    pub shape: Shape,
    /// The cells the piece covers, in order.
    pub blocks: Seq<Tile>,
    /// The moves open to the piece, as last derived.
    pub movable: Movable,
}

impl View for Piece {
    type V = PieceView;

    open spec fn view(&self) -> PieceView {
        PieceView { shape: self.shape, blocks: self.blocks@, movable: self.movable }
    }
}

/// The tiles at the given cells.
pub open spec fn tiles_at(cells: Seq<(int, int)>) -> Seq<Tile> {
    Seq::new(cells.len(), |k: int| Tile(cells[k].0 as i32, cells[k].1 as i32))
}

/// Whether a cell lies on the grid: in one of the board's columns and not
/// below its bottom row. Rows have no upper limit but that of `i32`.
pub open spec fn in_bounds(col: int, row: int) -> bool {
    0 <= col < GameBoard::COL_COUNT && 0 <= row <= i32::MAX
}

/// Whether one of the landed tiles lies at the given cell.
pub open spec fn occupied(tiles: Seq<Tile>, col: int, row: int) -> bool {
    exists|i: int| 0 <= i < tiles.len() && (#[trigger] tiles[i]).0 == col && tiles[i].1 == row
}

/// Whether a piece may cover the given cell: it is on the grid and no landed
/// tile is there.
pub open spec fn cell_free(tiles: Seq<Tile>, col: int, row: int) -> bool {
    in_bounds(col, row) && !occupied(tiles, col, row)
}

/// Whether a set of cells is a legal place for a piece: every cell is on the
/// grid and free of landed tiles.
pub open spec fn is_legal_at(cells: Seq<(int, int)>, tiles: Seq<Tile>) -> bool {
    forall|k: int| 0 <= k < cells.len() ==> cell_free(tiles, (#[trigger] cells[k]).0, cells[k].1)
}

/// The cells of a sequence of tiles, as pairs of column and row.
pub open spec fn cells_of(blocks: Seq<Tile>) -> Seq<(int, int)> {
    Seq::new(blocks.len(), |k: int| (blocks[k].0 as int, blocks[k].1 as int))
}

/// Tells whether a landed tile lies at the given cell.
pub fn is_occupied(tiles: &Vec<Tile>, col: i64, row: i64) -> (r: bool)
    ensures
        r == occupied(tiles@, col as int, row as int),
{
    let mut i: usize = 0;
    while i < tiles.len()
        invariant
            i <= tiles.len(),
            forall|j: int| 0 <= j < i ==> !((#[trigger] tiles@[j]).0 == col && tiles@[j].1 == row),
        decreases tiles.len() - i,
    {
        if tiles[i].0 as i64 == col && tiles[i].1 as i64 == row {
            return true;
        }
        i += 1;
    }
    false
}

/// Tells whether the four candidate cells are a legal place for a piece:
/// `false` exactly when a cell is left of column 0, right of the last column,
/// below row 0, or on a landed tile.
pub fn is_legal(blocks: &[Tile; 4], tiles: &Vec<Tile>) -> (r: bool)
    ensures
        r == is_legal_at(cells_of(blocks@), tiles@),
        !r <==> exists|k: int|
            0 <= k < 4 && ((#[trigger] blocks@[k]).0 < 0 || blocks@[k].0 >= GameBoard::COL_COUNT || blocks@[k].1 < 0
                || occupied(tiles@, blocks@[k].0 as int, blocks@[k].1 as int)),
{
    let mut k: usize = 0;
    while k < 4
        invariant
            k <= 4,
            forall|j: int| 0 <= j < k ==> cell_free(tiles@, blocks@[j].0 as int, blocks@[j].1 as int),
        decreases 4 - k,
    {
        let b = blocks[k];
        if b.0 < 0 || b.0 >= GameBoard::COL_COUNT as i32 || b.1 < 0 {
            assert(!cell_free(tiles@, cells_of(blocks@)[k as int].0, cells_of(blocks@)[k as int].1));
            assert(blocks@[k as int] == b);
            return false;
        }
        if is_occupied(tiles, b.0 as i64, b.1 as i64) {
            assert(!cell_free(tiles@, cells_of(blocks@)[k as int].0, cells_of(blocks@)[k as int].1));
            assert(blocks@[k as int] == b);
            return false;
        }
        k += 1;
    }
    assert forall|j: int| 0 <= j < cells_of(blocks@).len() implies cell_free(
        tiles@,
        (#[trigger] cells_of(blocks@)[j]).0,
        cells_of(blocks@)[j].1,
    ) by {
        assert(cell_free(tiles@, blocks@[j].0 as int, blocks@[j].1 as int));
    }
    true
}

/// Tells whether the candidate cells collide with a wall, the floor or a
/// landed tile: the opposite of [`is_legal`].
#[must_use]
pub fn has_collision(blocks: &[Tile; 4], tiles: &Vec<Tile>) -> (r: bool)
    ensures
        r == !is_legal_at(cells_of(blocks@), tiles@),
        r <==> exists|k: int|
            0 <= k < 4 && ((#[trigger] blocks@[k]).0 < 0 || blocks@[k].0 >= GameBoard::COL_COUNT || blocks@[k].1 < 0
                || occupied(tiles@, blocks@[k].0 as int, blocks@[k].1 as int)),
{
    !is_legal(blocks, tiles)
}

/// Whether the cells may all move one column to the left: none is in the
/// first column, and none has a landed tile on its left.
pub open spec fn may_move_left(blocks: Seq<Tile>, tiles: Seq<Tile>) -> bool {
    forall|k: int|
        0 <= k < blocks.len() ==> (#[trigger] blocks[k]).0 != 0 && !occupied(tiles, blocks[k].0 - 1, blocks[k].1 as int)
}

/// Whether the cells may all move one column to the right: none is in the
/// last column, and none has a landed tile on its right.
pub open spec fn may_move_right(blocks: Seq<Tile>, tiles: Seq<Tile>) -> bool {
    forall|k: int|
        0 <= k < blocks.len() ==> (#[trigger] blocks[k]).0 != GameBoard::COL_COUNT - 1 && !occupied(
            tiles,
            blocks[k].0 + 1,
            blocks[k].1 as int,
        )
}

/// Whether the cells may all move one row down: none is in the bottom row,
/// and none has a landed tile below it.
pub open spec fn may_move_down(blocks: Seq<Tile>, tiles: Seq<Tile>) -> bool {
    forall|k: int|
        0 <= k < blocks.len() ==> (#[trigger] blocks[k]).1 != 0 && !occupied(tiles, blocks[k].0 as int, blocks[k].1 - 1)
}

impl Movable {
    /// The moves open to a piece at `blocks` on a board with the landed
    /// `tiles`.
    pub open spec fn derived(blocks: Seq<Tile>, tiles: Seq<Tile>) -> Movable {
        Movable {
            can_down: may_move_down(blocks, tiles),
            can_left: may_move_left(blocks, tiles),
            can_right: may_move_right(blocks, tiles),
        }
    }

    /// Every move open: what a piece starts with.
    pub fn free() -> (r: Movable)
        ensures
            r.can_down && r.can_left && r.can_right,
    {
        Movable { can_down: true, can_left: true, can_right: true }
    }

    /// Derives the moves open to a piece from where it and the landed tiles
    /// are.
    pub fn derive(blocks: &[Tile; 4], tiles: &Vec<Tile>) -> (r: Movable)
        ensures
            r == Movable::derived(blocks@, tiles@),
    {
        let mut can_down = true;
        let mut can_left = true;
        let mut can_right = true;
        let mut k: usize = 0;
        while k < 4
            invariant
                k <= 4,
                can_down == may_move_down(blocks@.take(k as int), tiles@),
                can_left == may_move_left(blocks@.take(k as int), tiles@),
                can_right == may_move_right(blocks@.take(k as int), tiles@),
            decreases 4 - k,
        {
            let b = blocks[k];
            let col: i64 = b.0 as i64;
            let row: i64 = b.1 as i64;
            let ghost prefix = blocks@.take(k as int);
            let ghost next = blocks@.take(k + 1);
            assert(next =~= prefix.push(b));
            let left = b.0 != 0 && !is_occupied(tiles, col - 1, row);
            let right = b.0 != GameBoard::COL_COUNT as i32 - 1 && !is_occupied(tiles, col + 1, row);
            let down = b.1 != 0 && !is_occupied(tiles, col, row - 1);
            proof {
                assert(forall|j: int| 0 <= j < k ==> next[j] == prefix[j]);
                assert(next[k as int] == b);
                assert(may_move_left(next, tiles@) == (may_move_left(prefix, tiles@) && left)) by {
                    if may_move_left(next, tiles@) {
                        assert forall|j: int| 0 <= j < prefix.len() implies (#[trigger] prefix[j]).0 != 0
                            && !occupied(tiles@, prefix[j].0 - 1, prefix[j].1 as int) by {
                            assert(next[j] == prefix[j]);
                        }
                    }
                }
                assert(may_move_right(next, tiles@) == (may_move_right(prefix, tiles@) && right)) by {
                    if may_move_right(next, tiles@) {
                        assert forall|j: int| 0 <= j < prefix.len() implies (#[trigger] prefix[j]).0
                            != GameBoard::COL_COUNT - 1 && !occupied(tiles@, prefix[j].0 + 1, prefix[j].1 as int) by {
                            assert(next[j] == prefix[j]);
                        }
                    }
                }
                assert(may_move_down(next, tiles@) == (may_move_down(prefix, tiles@) && down)) by {
                    if may_move_down(next, tiles@) {
                        assert forall|j: int| 0 <= j < prefix.len() implies (#[trigger] prefix[j]).1 != 0
                            && !occupied(tiles@, prefix[j].0 as int, prefix[j].1 - 1) by {
                            assert(next[j] == prefix[j]);
                        }
                    }
                }
            }
            can_left = can_left && left;
            can_right = can_right && right;
            can_down = can_down && down;
            k += 1;
        }
        assert(blocks@.take(4) =~= blocks@);
        Movable { can_down, can_left, can_right }
    }

    /// Brings the moves open to the piece in play up to date. Without a piece
    /// in play nothing changes.
    pub fn update_pieces(board: &mut GameBoard)
        ensures
            final(board).tiles == old(board).tiles,
            final(board).piece == (match old(board).piece {
                Some(p) => Some(
                    Piece { movable: Movable::derived(p.blocks@, old(board).tiles@), ..p },
                ),
                None => None,
            }),
            old(board).wf() ==> final(board).wf(),
    {
        match board.piece {
            Some(p) => {
                let movable = Movable::derive(&p.blocks, &board.tiles);
                board.piece = Some(Piece { shape: p.shape, blocks: p.blocks, movable });
            },
            None => {},
        }
    }
}

/// Whether every one of the tiles can be moved by the given offsets without
/// leaving the range of `i32`.
pub open spec fn shift_fits(blocks: Seq<Tile>, delta_x: Option<i32>, delta_y: Option<i32>) -> bool {
    forall|k: int|
        0 <= k < blocks.len() ==> fits_i32((#[trigger] blocks[k]).spec_shift(delta_x, delta_y).0) && fits_i32(
            blocks[k].spec_shift(delta_x, delta_y).1,
        )
}

/// The cells of the tiles, each moved by the given offsets.
pub open spec fn shifted(blocks: Seq<Tile>, delta_x: Option<i32>, delta_y: Option<i32>) -> Seq<(int, int)> {
    Seq::new(blocks.len(), |k: int| blocks[k].spec_shift(delta_x, delta_y))
}

impl Tetromino {
    /// The row offset at which a piece enters the board: just above the
    /// visible rows.
    pub const SPAWN_ROW: i32 = 20;

    /// The piece of the given shape where it enters the board.
    pub open spec fn entering(shape: Shape) -> Seq<(int, int)> {
        shifted(shape.cells(), None, Some(Tetromino::SPAWN_ROW))
    }

    /// Whether this is a piece at the place where pieces enter the board.
    pub open spec fn is_entering(self) -> bool {
        cells_of(self.blocks@) == Tetromino::entering(self.shape)
    }

    /// Moves all four tiles of a piece by the same offsets; `None` stands
    /// for no movement along that axis.
    #[must_use]
    pub fn shift_piece(blocks: [Tile; 4], delta_x: Option<i32>, delta_y: Option<i32>) -> (r: [Tile; 4])
        requires
            shift_fits(blocks@, delta_x, delta_y),
        ensures
            cells_of(r@) == shifted(blocks@, delta_x, delta_y),
    {
        assert(blocks@[0] == blocks[0] && blocks@[1] == blocks[1] && blocks@[2] == blocks[2] && blocks@[3]
            == blocks[3]);
        let r = [
            Tile::shift(blocks[0], delta_x, delta_y),
            Tile::shift(blocks[1], delta_x, delta_y),
            Tile::shift(blocks[2], delta_x, delta_y),
            Tile::shift(blocks[3], delta_x, delta_y),
        ];
        assert(cells_of(r@) =~= shifted(blocks@, delta_x, delta_y));
        r
    }

    /// The piece of the given shape at the place where pieces enter the
    /// board.
    pub fn new(shape: Shape) -> (r: Tetromino)
        ensures
            r.shape == shape,
            r.is_entering(),
    {
        let base = shape.shape();
        assert(shift_fits(base@, None, Some(Tetromino::SPAWN_ROW)));
        Tetromino { shape, blocks: Tetromino::shift_piece(base, None, Some(Tetromino::SPAWN_ROW)) }
    }

    /// Puts this piece into play, with every move open to it. A piece that
    /// was in play before is replaced.
    pub fn spawn_movable(self, board: &mut GameBoard)
        ensures
            final(board).tiles == old(board).tiles,
            final(board).piece == Some(
                Piece {
                    shape: self.shape,
                    blocks: self.blocks,
                    movable: Movable { can_down: true, can_left: true, can_right: true },
                },
            ),
    {
        board.piece = Some(Piece { shape: self.shape, blocks: self.blocks, movable: Movable::free() });
    }

    /// Puts the four tiles of this piece among the landed tiles, in their
    /// order.
    pub fn spawn_frozen(self, board: &mut GameBoard)
        ensures
            final(board).piece == old(board).piece,
            final(board).tiles@ == old(board).tiles@ + self.blocks@,
    {
        board.tiles.push(self.blocks[0]);
        board.tiles.push(self.blocks[1]);
        board.tiles.push(self.blocks[2]);
        board.tiles.push(self.blocks[3]);
        assert(board.tiles@ =~= old(board).tiles@ + self.blocks@);
    }
}

/// Draws a number below `bound` from the thread's random generator: the
/// method `gen_range` of `rand::Rng`, called on `rand::thread_rng()` with the
/// range from 0 up to and without `bound`. The contract claims only what
/// holds of every draw: the number lies in that range. An empty range makes
/// `gen_range` panic, so the bound is not zero.
#[verifier::external_body]
fn random_below(bound: u32) -> (r: u32)
    requires
        bound > 0,
    ensures
        r < bound,
{
    rand::thread_rng().gen_range(0..bound)
}

impl Shape {
    /// A shape drawn at random. Any of the seven may come.
    #[must_use]
    pub fn random() -> (r: Shape)
        ensures
            exists|index: int| 0 <= index < Shape::VARIANTS && r == Shape::at(index),
    {
        let index = random_below(Shape::VARIANTS);
        match Shape::from_index(index) {
            Some(shape) => shape,
            None => vstd::pervasive::unreached(),
        }
    }

    /// `n` shapes, each drawn at random by itself: a shape may come more than
    /// once.
    #[must_use]
    pub fn random_n(n: usize) -> (r: Vec<Shape>)
        ensures
            r@.len() == n,
    {
        let mut shapes: Vec<Shape> = Vec::new();
        let mut i: usize = 0;
        while i < n
            invariant
                i <= n,
                shapes@.len() == i,
            decreases n - i,
        {
            shapes.push(Shape::random());
            i += 1;
        }
        shapes
    }
}

/// Whether the pieces are those of the given shapes, in order, each at the
/// place where pieces enter the board.
pub open spec fn is_batch_of(pieces: Seq<Tetromino>, shapes: Seq<Shape>) -> bool {
    &&& pieces.len() == shapes.len()
    &&& forall|i: int| 0 <= i < pieces.len() ==> (#[trigger] pieces[i]).shape == shapes[i] && pieces[i].is_entering()
}

/// Whether every one of the pieces is at the place where pieces enter the
/// board.
pub open spec fn all_entering(pieces: Seq<Tetromino>) -> bool {
    forall|i: int| 0 <= i < pieces.len() ==> (#[trigger] pieces[i]).is_entering()
}

/// Whether the pieces are a batch as a refill adds it to the queue: as many
/// as there are shapes, each at the place where pieces enter the board.
pub open spec fn is_bag(pieces: Seq<Tetromino>) -> bool {
    &&& pieces.len() == Shape::VARIANTS
    &&& forall|i: int| 0 <= i < pieces.len() ==> (#[trigger] pieces[i]).is_entering()
}

impl Tetromino {
    /// The pieces of the given shapes, in order, each at the place where
    /// pieces enter the board.
    pub fn batch_of(shapes: &Vec<Shape>) -> (r: Vec<Tetromino>)
        ensures
            is_batch_of(r@, shapes@),
    {
        let mut pieces: Vec<Tetromino> = Vec::new();
        let mut i: usize = 0;
        while i < shapes.len()
            invariant
                i <= shapes.len(),
                is_batch_of(pieces@, shapes@.take(i as int)),
            decreases shapes.len() - i,
        {
            pieces.push(Tetromino::new(shapes[i]));
            i += 1;
        }
        assert(shapes@.take(shapes@.len() as int) =~= shapes@);
        pieces
    }

    /// `n` pieces of shapes drawn at random, each at the place where pieces
    /// enter the board.
    #[must_use]
    pub fn random_n(n: usize) -> (r: Vec<Tetromino>)
        ensures
            r@.len() == n,
            forall|i: int| 0 <= i < r@.len() ==> (#[trigger] r@[i]).is_entering(),
    {
        let shapes = Shape::random_n(n);
        Tetromino::batch_of(&shapes)
    }
}

/// The pieces to come, the next one at the front.
#[derive(Debug)]
pub struct Queue(pub VecDeque<Tetromino>);

impl View for Queue {
    type V = Seq<Tetromino>;

    open spec fn view(&self) -> Seq<Tetromino> {
        self.0@
    }
}

/// The queue after a refill check with the given batch at hand: the batch is
/// added at the back where fewer pieces wait than there are shapes.
pub open spec fn refilled(queue: Seq<Tetromino>, batch: Seq<Tetromino>) -> Seq<Tetromino> {
    if queue.len() < Shape::VARIANTS {
        queue + batch
    } else {
        queue
    }
}

impl Queue {
    /// An empty queue.
    pub fn new() -> (r: Queue)
        ensures
            r@.len() == 0,
    {
        Queue(VecDeque::new())
    }

    /// How many pieces wait.
    pub fn len(&self) -> (r: usize)
        ensures
            r == self@.len(),
    {
        self.0.len()
    }

    /// Tells whether the queue has run low: fewer pieces wait than there are
    /// shapes.
    pub fn is_low(&self) -> (r: bool)
        ensures
            r == (self@.len() < Shape::VARIANTS),
    {
        self.0.len() < Shape::VARIANTS as usize
    }

    /// The shape of the next piece, if any waits.
    pub fn next_shape(&self) -> (r: Option<Shape>)
        ensures
            r == (if self@.len() > 0 {
                Some(self@[0].shape)
            } else {
                None
            }),
    {
        if self.0.len() > 0 {
            Some(self.0[0].shape)
        } else {
            None
        }
    }

    /// Adds the pieces of `batch` at the back, in order.
    pub fn extend(&mut self, batch: &Vec<Tetromino>)
        ensures
            final(self)@ == old(self)@ + batch@,
    {
        let mut i: usize = 0;
        while i < batch.len()
            invariant
                i <= batch.len(),
                self@ == old(self)@ + batch@.take(i as int),
            decreases batch.len() - i,
        {
            self.0.push_back(batch[i]);
            assert(batch@.take(i + 1) =~= batch@.take(i as int).push(batch@[i as int]));
            assert(self@ =~= old(self)@ + batch@.take(i + 1));
            i += 1;
        }
        assert(batch@.take(batch@.len() as int) =~= batch@);
    }

    /// Refills the queue from `batch` where it has run low, and leaves it as
    /// it is otherwise.
    pub fn refill_if_low(&mut self, batch: &Vec<Tetromino>)
        ensures
            final(self)@ == refilled(old(self)@, batch@),
            is_bag(batch@) ==> final(self)@.len() >= Shape::VARIANTS,
            is_bag(batch@) && old(self)@.len() < Shape::VARIANTS ==> final(self)@.len() == old(self)@.len()
                + Shape::VARIANTS,
    {
        if self.is_low() {
            self.extend(batch);
        }
    }

    /// Takes all pieces out of the queue.
    pub fn clear(&mut self)
        ensures
            final(self)@.len() == 0,
    {
        self.0.clear();
    }
}

/// The piece that a waiting piece becomes when it enters play: the same shape
/// and cells, with every move open.
pub open spec fn in_play(next: Tetromino) -> Piece {
    Piece {
        shape: next.shape,
        blocks: next.blocks,
        movable: Movable { can_down: true, can_left: true, can_right: true },
    }
}

/// What a spawn makes of the piece in play, of what the player holds, and of
/// the waiting pieces. With a piece in play nothing changes. Without one, the
/// piece at the front of the queue leaves it and enters play, and the player
/// may hold again.
pub open spec fn spawn_gives(
    piece: Option<Piece>,
    data: GameBoardData,
    waiting: Seq<Tetromino>,
    piece_after: Option<Piece>,
    data_after: GameBoardData,
    waiting_after: Seq<Tetromino>,
) -> bool {
    if piece.is_some() {
        piece_after == piece && data_after == data && waiting_after == waiting
    } else {
        &&& piece_after == Some(in_play(waiting[0]))
        &&& data_after == (GameBoardData { held: false, ..data })
        &&& waiting_after == waiting.skip(1)
    }
}

/// Puts the piece at the front of the queue into play, if no piece is in
/// play. The landed tiles are not touched. Returns whether a piece entered
/// play. Without a piece in play, a piece has to wait in the queue.
pub fn spawn_next(board: &mut GameBoard, data: &mut GameBoardData, queue: &mut Queue) -> (spawned: bool)
    requires
        old(board).piece.is_none() ==> old(queue)@.len() > 0,
    ensures
        spawned == old(board).piece.is_none(),
        final(board).tiles == old(board).tiles,
        final(board).piece.is_some(),
        spawn_gives(
            old(board).piece,
            *old(data),
            old(queue)@,
            final(board).piece,
            *final(data),
            final(queue)@,
        ),
        old(board).wf() && (spawned ==> old(queue)@[0].is_entering() && !reaches_top(old(board).tiles@))
            ==> final(board).wf(),
{
    if board.piece.is_some() {
        return false;
    }
    match queue.0.pop_front() {
        Some(next) => {
            proof {
                if next.is_entering() && !reaches_top(board.tiles@) {
                    lemma_entering_is_legal(next, board.tiles@);
                }
            }
            next.spawn_movable(board);
            data.held = false;
            assert(queue@ =~= old(queue)@.skip(1));
            true
        },
        None => vstd::pervasive::unreached(),
    }
}

/// Keeps the queue filled and a piece in play.
///
/// Where fewer pieces wait than there are shapes, a batch of as many pieces
/// as there are shapes, drawn at random, joins the queue first. Then the
/// piece at the front enters play as [`spawn_next`] says, if no piece is in
/// play. Returns whether a piece entered play.
pub fn spawn_next_piece(board: &mut GameBoard, data: &mut GameBoardData, queue: &mut Queue) -> (spawned: bool)
    ensures
        spawned == old(board).piece.is_none(),
        final(board).tiles == old(board).tiles,
        final(board).piece.is_some(),
        old(queue)@.len() >= Shape::VARIANTS ==> spawn_gives(
            old(board).piece,
            *old(data),
            old(queue)@,
            final(board).piece,
            *final(data),
            final(queue)@,
        ),
        old(queue)@.len() < Shape::VARIANTS ==> exists|batch: Seq<Tetromino>|
            is_bag(batch) && #[trigger] spawn_gives(
                old(board).piece,
                *old(data),
                old(queue)@ + batch,
                final(board).piece,
                *final(data),
                final(queue)@,
            ),
        all_entering(old(queue)@) ==> all_entering(final(queue)@),
        old(board).wf() && all_entering(old(queue)@) && !reaches_top(old(board).tiles@) ==> final(board).wf(),
{
    if queue.is_low() {
        let drawn = Tetromino::random_n(Shape::VARIANTS as usize);
        queue.extend(&drawn);
        assert(is_bag(drawn@));
        assert(all_entering(old(queue)@) ==> all_entering(queue@));
        let spawned = spawn_next(board, data, queue);
        assert(spawn_gives(
            old(board).piece,
            *old(data),
            old(queue)@ + drawn@,
            board.piece,
            *data,
            queue@,
        ));
        spawned
    } else {
        spawn_next(board, data, queue)
    }
}

impl Tile {
    /// Takes every tile off the board: the landed ones and the piece in
    /// play.
    pub fn clear_all(board: &mut GameBoard)
        ensures
            final(board).piece.is_none(),
            final(board).tiles@.len() == 0,
            final(board).wf(),
    {
        board.piece = None;
        board.tiles.clear();
    }
}

/// The preview of the piece that falls next: the tiles drawn beside the
/// board.
#[derive(Debug)]
pub struct NextTetromino {
    /// The tiles of the preview. Empty while nothing is shown.
    pub tiles: Vec<Tile>,
}

impl NextTetromino {
    /// How far left of a shape's base layout its preview is drawn.
    pub const OFFSET_X: i32 = -8;

    /// How far above a shape's base layout its preview is drawn.
    pub const OFFSET_Y: i32 = 12;

    /// The cells at which the preview of a shape is drawn: left of the board,
    /// in its upper half.
    pub open spec fn preview(shape: Shape) -> Seq<(int, int)> {
        shifted(shape.cells(), Some(NextTetromino::OFFSET_X), Some(NextTetromino::OFFSET_Y))
    }

    /// Whether the preview has to be drawn anew: none was recorded, or the
    /// piece at the front of the queue has another shape than the recorded
    /// one.
    pub open spec fn is_stale(data: GameBoardData, queue: Seq<Tetromino>) -> bool {
        data.next_piece != Some(queue[0].shape)
    }

    /// A preview that shows nothing.
    pub fn new() -> (r: NextTetromino)
        ensures
            r.tiles@.len() == 0,
    {
        NextTetromino { tiles: Vec::new() }
    }

    /// Takes the preview away. What was recorded as the next shape stays.
    pub fn clear(&mut self)
        ensures
            final(self).tiles@.len() == 0,
    {
        self.tiles.clear();
    }

    /// Keeps the preview in step with the front of the queue, which must not
    /// be empty. Where the recorded next shape is not the shape at the front,
    /// that shape is recorded and the preview is replaced by its four tiles.
    /// Otherwise nothing changes. The queue is only read. Returns whether the
    /// preview was replaced.
    pub fn update(&mut self, queue: &Queue, data: &mut GameBoardData) -> (changed: bool)
        requires
            queue@.len() > 0,
        ensures
            changed == NextTetromino::is_stale(*old(data), queue@),
            final(data).next_piece == Some(queue@[0].shape),
            final(data).held == old(data).held,
            final(data).held_piece == old(data).held_piece,
            !changed ==> final(self).tiles@ == old(self).tiles@,
            changed ==> cells_of(final(self).tiles@) == NextTetromino::preview(queue@[0].shape),
    {
        let next = queue.0[0].shape;
        let stale = match data.next_piece {
            Some(shown) => shown != next,
            None => true,
        };
        if stale {
            data.next_piece = Some(next);
            let base = next.shape();
            assert(shift_fits(base@, Some(NextTetromino::OFFSET_X), Some(NextTetromino::OFFSET_Y)));
            let blocks = Tetromino::shift_piece(
                base,
                Some(NextTetromino::OFFSET_X),
                Some(NextTetromino::OFFSET_Y),
            );
            let mut tiles: Vec<Tile> = Vec::new();
            tiles.push(blocks[0]);
            tiles.push(blocks[1]);
            tiles.push(blocks[2]);
            tiles.push(blocks[3]);
            assert(tiles@ =~= blocks@);
            self.tiles = tiles;
        }
        stale
    }
}

/// A colour as red, green and blue parts, each in hundredths of the full
/// intensity.
#[derive(Clone, Copy, Debug, PartialEq, Eq, Structural)]
pub struct Color {
    /// Red, from 0 to 100.
    pub r: u8,
    /// Green, from 0 to 100.
    pub g: u8,
    /// Blue, from 0 to 100.
    pub b: u8,
}

impl Shape {
    /// The name of the shape: its letter.
    pub open spec fn spec_name(self) -> Seq<char> {
        match self {
            Shape::I => "I"@,
            Shape::J => "J"@,
            Shape::L => "L"@,
            Shape::O => "O"@,
            Shape::S => "S"@,
            Shape::T => "T"@,
            Shape::Z => "Z"@,
        }
    }

    /// The colour that stands for the shape: teal, blue, peach, yellow,
    /// green, mauve and red, from `I` to `Z`.
    pub open spec fn spec_color(self) -> Color {
        match self {
            Shape::I => Color { r: 55, g: 84, b: 79 },
            Shape::J => Color { r: 54, g: 68, b: 96 },
            Shape::L => Color { r: 96, g: 66, b: 50 },
            Shape::O => Color { r: 93, g: 83, b: 62 },
            Shape::S => Color { r: 65, g: 86, b: 58 },
            Shape::T => Color { r: 78, g: 63, b: 96 },
            Shape::Z => Color { r: 93, g: 53, b: 59 },
        }
    }

    /// The letter that names the shape.
    pub fn name(&self) -> (r: &'static str)
        ensures
            r@ == self.spec_name(),
    {
        match self {
            Shape::I => "I",
            Shape::J => "J",
            Shape::L => "L",
            Shape::O => "O",
            Shape::S => "S",
            Shape::T => "T",
            Shape::Z => "Z",
        }
    }

    /// The colour in which pieces of this shape are drawn.
    #[must_use]
    pub fn color(&self) -> (r: Color)
        ensures
            r == self.spec_color(),
    {
        match self {
            Shape::I => Color { r: 55, g: 84, b: 79 },
            Shape::J => Color { r: 54, g: 68, b: 96 },
            Shape::L => Color { r: 96, g: 66, b: 50 },
            Shape::O => Color { r: 93, g: 83, b: 62 },
            Shape::S => Color { r: 65, g: 86, b: 58 },
            Shape::T => Color { r: 78, g: 63, b: 96 },
            Shape::Z => Color { r: 93, g: 53, b: 59 },
        }
    }
}

} // verus!
