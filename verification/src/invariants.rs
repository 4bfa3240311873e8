//! What stays true of the board: landed tiles never share a cell and never
//! leave the grid, a line clear leaves no full row behind, and a piece that
//! moves as its flags allow stays on free cells.
use crate::board::{
    below, collapse, full_rows, full_rows_below, lemma_filter_distinct, lemma_full_rows_finite,
    lemma_row_columns_finite, row_columns, row_is_full, rows_of, settles, survives, GameBoard,
};
use crate::board::reaches_top;
use crate::keymap::{rotation_candidate, stepped};
use crate::tetromino::{
    cell_free, cells_of, in_bounds, is_legal_at, may_move_down, may_move_left, may_move_right, occupied, Shape,
    Tetromino, Tile,
};
use vstd::prelude::*;
use vstd::relations::injective_on;
use vstd::set_lib::*;

verus! {

/// Whether landed tiles are as they should be: no two of them share a cell,
/// and each lies on the grid.
pub open spec fn tiles_wf(tiles: Seq<Tile>) -> bool {
    &&& tiles.no_duplicates()
    &&& forall|i: int| 0 <= i < tiles.len() ==> in_bounds((#[trigger] tiles[i]).0 as int, tiles[i].1 as int)
}

impl GameBoard {
    /// Whether the board is as it should be: the landed tiles are, and the
    /// piece in play covers four different cells that are on the grid and
    /// free of landed tiles.
    pub open spec fn wf(self) -> bool {
        &&& tiles_wf(self.tiles@)
        &&& self.piece matches Some(p) ==> p.blocks@.no_duplicates() && is_legal_at(
            cells_of(p.blocks@),
            self.tiles@,
        )
    }
}

/// A piece on legal cells that takes a step which its derived flags allow is
/// on legal cells again.
pub proof fn lemma_allowed_step_is_legal(blocks: Seq<Tile>, tiles: Seq<Tile>)
    requires
        is_legal_at(cells_of(blocks), tiles),
    ensures
        may_move_left(blocks, tiles) ==> is_legal_at(stepped(blocks, -1, 0), tiles),
        may_move_right(blocks, tiles) ==> is_legal_at(stepped(blocks, 1, 0), tiles),
        may_move_down(blocks, tiles) ==> is_legal_at(stepped(blocks, 0, -1), tiles),
{
    assert forall|k: int| 0 <= k < blocks.len() implies in_bounds(blocks[k].0 as int, blocks[k].1 as int) by {
        assert(cell_free(tiles, cells_of(blocks)[k].0, cells_of(blocks)[k].1));
    }
    if may_move_left(blocks, tiles) {
        assert forall|k: int| 0 <= k < stepped(blocks, -1, 0).len() implies cell_free(
            tiles,
            (#[trigger] stepped(blocks, -1, 0)[k]).0,
            stepped(blocks, -1, 0)[k].1,
        ) by {
            assert(in_bounds(blocks[k].0 as int, blocks[k].1 as int));
        }
    }
    if may_move_right(blocks, tiles) {
        assert forall|k: int| 0 <= k < stepped(blocks, 1, 0).len() implies cell_free(
            tiles,
            (#[trigger] stepped(blocks, 1, 0)[k]).0,
            stepped(blocks, 1, 0)[k].1,
        ) by {
            assert(in_bounds(blocks[k].0 as int, blocks[k].1 as int));
        }
    }
    if may_move_down(blocks, tiles) {
        assert forall|k: int| 0 <= k < stepped(blocks, 0, -1).len() implies cell_free(
            tiles,
            (#[trigger] stepped(blocks, 0, -1)[k]).0,
            stepped(blocks, 0, -1)[k].1,
        ) by {
            assert(in_bounds(blocks[k].0 as int, blocks[k].1 as int));
        }
    }
}

/// A finite set of rows that all lie from `lo` up to and without `hi` has at
/// most `hi - lo` members.
pub proof fn lemma_rows_between(rows: Set<i32>, lo: int, hi: int)
    requires
        rows.finite(),
        lo <= hi,
        forall|r: i32| rows.contains(r) ==> lo <= r < hi,
    ensures
        rows.len() <= hi - lo,
{
    let widen = |r: i32| r as int;
    let wide = rows.map(widen);
    assert(injective_on(widen, rows));
    lemma_map_size(rows, wide, widen);
    lemma_int_range(lo, hi);
    assert(wide.subset_of(set_int_range(lo, hi)));
    lemma_len_subset(wide, set_int_range(lo, hi));
}

/// The full rows below a row are finitely many, and no more than there are
/// rows of `i32` below it.
pub proof fn lemma_full_rows_below(tiles: Seq<Tile>, row: i32)
    ensures
        full_rows(tiles).filter(below(row)).finite(),
        row - full_rows_below(tiles, row) >= i32::MIN,
        full_rows_below(tiles, row) <= full_rows(tiles).len(),
{
    lemma_full_rows_finite(tiles);
    full_rows(tiles).lemma_len_filter(below(row));
    lemma_rows_between(full_rows(tiles).filter(below(row)), i32::MIN as int, row as int);
}

/// Dropping keeps the order of rows that are not full: of two rows, the lower
/// of which is not full, the lower one comes to rest strictly lower.
pub proof fn lemma_settling_keeps_order(tiles: Seq<Tile>, low: i32, high: i32)
    requires
        low < high,
        !row_is_full(tiles, low),
    ensures
        low - full_rows_below(tiles, low) < high - full_rows_below(tiles, high),
{
    lemma_full_rows_finite(tiles);
    let full = full_rows(tiles);
    let under_low = full.filter(below(low));
    let under_high = full.filter(below(high));
    let between = under_high.difference(under_low);
    full.lemma_len_filter(below(low));
    full.lemma_len_filter(below(high));
    lemma_len_subset(between, under_high);
    assert forall|r: i32| between.contains(r) implies low + 1 <= r < high by {
        assert(full.contains(r));
        assert(r != low);
    }
    lemma_rows_between(between, low + 1, high as int);
    assert(under_low.disjoint(between));
    assert(under_low + between =~= under_high);
    lemma_set_disjoint_lens(under_low, between);
}

/// Whether `after` is what a line clear makes of tile `i`: the tile lies in
/// a row that is not full, and `after` is that tile dropped by the number of
/// full rows below it.
pub open spec fn settled_from(tiles: Seq<Tile>, after: Tile, i: int) -> bool {
    &&& 0 <= i < tiles.len()
    &&& !row_is_full(tiles, tiles[i].1)
    &&& after.0 == tiles[i].0
    &&& after.1 == tiles[i].1 - full_rows_below(tiles, tiles[i].1)
}

/// Whether `after` is what a line clear makes of one of the tiles.
pub open spec fn settled(tiles: Seq<Tile>, after: Tile) -> bool {
    exists|i: int| #[trigger] settled_from(tiles, after, i)
}

/// What a line clear keeps and where it puts it: every tile after the clear
/// is a tile from a row that was not full, dropped by the number of full
/// rows below it; and every such tile is there after the clear.
pub proof fn lemma_collapse_members(tiles: Seq<Tile>)
    ensures
        forall|j: int| 0 <= j < collapse(tiles).len() ==> settled(tiles, #[trigger] collapse(tiles)[j]),
        forall|i: int|
            0 <= i < tiles.len() && !row_is_full(tiles, (#[trigger] tiles[i]).1) ==> occupied(
                collapse(tiles),
                tiles[i].0 as int,
                tiles[i].1 - full_rows_below(tiles, tiles[i].1),
            ),
{
    let kept = tiles.filter(survives(tiles));
    let after = collapse(tiles);
    assert(after.len() == kept.len());
    assert forall|j: int| 0 <= j < after.len() implies settled(tiles, #[trigger] after[j]) by {
        tiles.lemma_filter_pred(survives(tiles), j);
        assert(kept.contains(kept[j]));
        tiles.lemma_filter_contains_rev(survives(tiles), kept[j]);
        let i = choose|i: int| 0 <= i < tiles.len() && tiles[i] == kept[j];
        lemma_full_rows_below(tiles, tiles[i].1);
        assert(after[j] == settles(tiles)(kept[j]));
        assert(settled_from(tiles, after[j], i));
    }
    assert forall|i: int| 0 <= i < tiles.len() && !row_is_full(tiles, (#[trigger] tiles[i]).1) implies occupied(
        after,
        tiles[i].0 as int,
        tiles[i].1 - full_rows_below(tiles, tiles[i].1),
    ) by {
        tiles.lemma_filter_contains(survives(tiles), i);
        let j = choose|j: int| 0 <= j < kept.len() && kept[j] == tiles[i];
        lemma_full_rows_below(tiles, tiles[i].1);
        assert(after[j] == settles(tiles)(kept[j]));
        assert(after[j].0 == tiles[i].0 && after[j].1 == tiles[i].1 - full_rows_below(tiles, tiles[i].1));
    }
}

/// A line clear leaves no full row behind.
pub proof fn lemma_collapse_leaves_no_full_row(tiles: Seq<Tile>)
    ensures
        full_rows(collapse(tiles)) == Set::<i32>::empty(),
{
    let after = collapse(tiles);
    lemma_collapse_members(tiles);
    assert forall|row: i32| !row_is_full(after, row) by {
        lemma_row_columns_finite(after, row);
        let cols = row_columns(after, row);
        if cols.len() != 0 {
            let c = cols.choose();
            assert(cols.contains(c));
            let j = choose|j: int| 0 <= j < after.len() && (#[trigger] after[j]).0 == c && after[j].1 == row;
            assert(settled(tiles, after[j]));
            let i = choose|i: int| #[trigger] settled_from(tiles, after[j], i);
            let from = tiles[i].1;
            assert forall|col: i32| cols.contains(col) <==> row_columns(tiles, from).contains(col) by {
                if cols.contains(col) {
                    let j2 = choose|j2: int|
                        0 <= j2 < after.len() && (#[trigger] after[j2]).0 == col && after[j2].1 == row;
                    assert(settled(tiles, after[j2]));
                    let i2 = choose|i2: int| #[trigger] settled_from(tiles, after[j2], i2);
                    if tiles[i2].1 < from {
                        lemma_settling_keeps_order(tiles, tiles[i2].1, from);
                    }
                    if from < tiles[i2].1 {
                        lemma_settling_keeps_order(tiles, from, tiles[i2].1);
                    }
                    assert(tiles[i2].0 == col && tiles[i2].1 == from);
                }
                if row_columns(tiles, from).contains(col) {
                    let i3 = choose|i3: int|
                        0 <= i3 < tiles.len() && (#[trigger] tiles[i3]).0 == col && tiles[i3].1 == from;
                    assert(occupied(after, tiles[i3].0 as int, tiles[i3].1 - full_rows_below(tiles, tiles[i3].1)));
                }
            }
            assert(cols =~= row_columns(tiles, from));
        }
    }
    assert(full_rows(after) =~= Set::<i32>::empty());
}

/// A line clear keeps the landed tiles as they should be: no two of them
/// come to share a cell, and none leaves the grid.
pub proof fn lemma_collapse_keeps_tiles_wf(tiles: Seq<Tile>)
    requires
        tiles_wf(tiles),
    ensures
        tiles_wf(collapse(tiles)),
{
    let kept = tiles.filter(survives(tiles));
    let after = collapse(tiles);
    lemma_filter_distinct(tiles, survives(tiles));
    lemma_full_rows_finite(tiles);
    assert(after.len() == kept.len());
    assert forall|j: int| 0 <= j < kept.len() implies {
        &&& 0 <= (#[trigger] kept[j]).0 < GameBoard::COL_COUNT
        &&& 0 <= kept[j].1
        &&& !row_is_full(tiles, kept[j].1)
        &&& after[j].0 == kept[j].0
        &&& after[j].1 == kept[j].1 - full_rows_below(tiles, kept[j].1)
        &&& 0 <= after[j].1
    } by {
        tiles.lemma_filter_pred(survives(tiles), j);
        assert(kept.contains(kept[j]));
        tiles.lemma_filter_contains_rev(survives(tiles), kept[j]);
        let i = choose|i: int| 0 <= i < tiles.len() && tiles[i] == kept[j];
        assert(in_bounds(tiles[i].0 as int, tiles[i].1 as int));
        let row = kept[j].1;
        let under = full_rows(tiles).filter(below(row));
        full_rows(tiles).lemma_len_filter(below(row));
        assert forall|r: i32| under.contains(r) implies 0 <= r < row by {
            assert(rows_of(tiles).to_set().contains(r));
            let k = choose|k: int| 0 <= k < rows_of(tiles).len() && rows_of(tiles)[k] == r;
            assert(in_bounds(tiles[k].0 as int, tiles[k].1 as int));
        }
        lemma_rows_between(under, 0, row as int);
        assert(after[j] == settles(tiles)(kept[j]));
    }
    assert forall|a: int, b: int| 0 <= a < after.len() && 0 <= b < after.len() && a != b implies after[a]
        != after[b] by {
        assert(kept[a] != kept[b]);
        if kept[a].0 == kept[b].0 {
            if kept[a].1 < kept[b].1 {
                lemma_settling_keeps_order(tiles, kept[a].1, kept[b].1);
            } else {
                lemma_settling_keeps_order(tiles, kept[b].1, kept[a].1);
            }
        }
    }
    assert forall|j: int| 0 <= j < after.len() implies in_bounds(
        (#[trigger] after[j]).0 as int,
        after[j].1 as int,
    ) by {
        assert(0 <= kept[j].0);
    }
}

/// A landing piece completes at most as many rows as it has tiles: where no
/// row was full, the full rows after the tiles were added are among the rows
/// of the added tiles.
pub proof fn lemma_landing_fills_few_rows(tiles: Seq<Tile>, blocks: Seq<Tile>)
    requires
        full_rows(tiles) == Set::<i32>::empty(),
    ensures
        full_rows(tiles + blocks).subset_of(rows_of(blocks).to_set()),
        full_rows(tiles + blocks).len() <= blocks.len(),
{
    let joined = tiles + blocks;
    assert forall|row: i32| full_rows(joined).contains(row) implies rows_of(blocks).to_set().contains(row) by {
        if !rows_of(blocks).contains(row) {
            assert forall|col: i32| row_columns(joined, row).contains(col) <==> row_columns(tiles, row).contains(
                col,
            ) by {
                if row_columns(joined, row).contains(col) {
                    let i = choose|i: int|
                        0 <= i < joined.len() && (#[trigger] joined[i]).0 == col && joined[i].1 == row;
                    if i >= tiles.len() {
                        assert(rows_of(blocks)[i - tiles.len()] == row);
                    }
                    assert(tiles[i].0 == col && tiles[i].1 == row);
                }
                if row_columns(tiles, row).contains(col) {
                    let i = choose|i: int|
                        0 <= i < tiles.len() && (#[trigger] tiles[i]).0 == col && tiles[i].1 == row;
                    assert(joined[i].0 == col && joined[i].1 == row);
                }
            }
            assert(row_columns(joined, row) =~= row_columns(tiles, row));
            assert(full_rows(tiles).contains(row));
        }
    }
    vstd::seq_lib::seq_to_set_is_finite(rows_of(blocks));
    lemma_len_subset(full_rows(joined), rows_of(blocks).to_set());
    rows_of(blocks).lemma_cardinality_of_set();
}

/// Landed tiles stay as they should be when a piece lands on legal cells:
/// the four different cells of the piece were free.
pub proof fn lemma_landing_keeps_tiles_wf(tiles: Seq<Tile>, blocks: Seq<Tile>)
    requires
        tiles_wf(tiles),
        blocks.no_duplicates(),
        is_legal_at(cells_of(blocks), tiles),
    ensures
        tiles_wf(tiles + blocks),
{
    let joined = tiles + blocks;
    assert forall|k: int| 0 <= k < blocks.len() implies cell_free(tiles, blocks[k].0 as int, blocks[k].1 as int) by {
        assert(cell_free(tiles, cells_of(blocks)[k].0, cells_of(blocks)[k].1));
    }
    assert forall|a: int, b: int| 0 <= a < joined.len() && 0 <= b < joined.len() && a != b implies joined[a]
        != joined[b] by {
        if a < tiles.len() && b >= tiles.len() {
            assert(cell_free(tiles, blocks[b - tiles.len()].0 as int, blocks[b - tiles.len()].1 as int));
        }
        if b < tiles.len() && a >= tiles.len() {
            assert(cell_free(tiles, blocks[a - tiles.len()].0 as int, blocks[a - tiles.len()].1 as int));
        }
    }
    assert forall|i: int| 0 <= i < joined.len() implies in_bounds(
        (#[trigger] joined[i]).0 as int,
        joined[i].1 as int,
    ) by {
        if i >= tiles.len() {
            assert(cell_free(tiles, blocks[i - tiles.len()].0 as int, blocks[i - tiles.len()].1 as int));
        }
    }
}

/// Tiles that cover different cells are themselves different, and the other
/// way round.
pub proof fn lemma_cells_apart(blocks: Seq<Tile>)
    ensures
        blocks.no_duplicates() <==> cells_of(blocks).no_duplicates(),
{
    if blocks.no_duplicates() {
        assert forall|a: int, b: int|
            0 <= a < cells_of(blocks).len() && 0 <= b < cells_of(blocks).len() && a != b implies cells_of(blocks)[a]
            != cells_of(blocks)[b] by {
            assert(blocks[a] != blocks[b]);
        }
    }
    if cells_of(blocks).no_duplicates() {
        assert forall|a: int, b: int| 0 <= a < blocks.len() && 0 <= b < blocks.len() && a != b implies blocks[a]
            != blocks[b] by {
            assert(cells_of(blocks)[a] != cells_of(blocks)[b]);
        }
    }
}

/// A turn keeps the cells of a piece apart: four different cells turn into
/// four different cells, at every attempt.
pub proof fn lemma_rotation_keeps_cells_apart(blocks: Seq<Tile>, shape: Shape, attempt: int)
    requires
        blocks.len() == 4,
        blocks.no_duplicates(),
    ensures
        rotation_candidate(blocks, shape, attempt).no_duplicates(),
{
    let turned = rotation_candidate(blocks, shape, attempt);
    assert forall|a: int, b: int| 0 <= a < turned.len() && 0 <= b < turned.len() && a != b implies turned[a]
        != turned[b] by {
        assert(blocks[a] != blocks[b]);
    }
}

/// A piece that enters the board covers four different cells on the grid,
/// and they are free while no landed tile has reached the top row.
pub proof fn lemma_entering_is_legal(next: Tetromino, tiles: Seq<Tile>)
    requires
        next.is_entering(),
        !reaches_top(tiles),
    ensures
        next.blocks@.no_duplicates(),
        is_legal_at(cells_of(next.blocks@), tiles),
{
    let cells = cells_of(next.blocks@);
    let base = next.shape.cells();
    assert(cells == Tetromino::entering(next.shape));
    assert forall|k: int| 0 <= k < 4 implies cells[k] == (base[k].0 as int, base[k].1 + 20) by {}
    assert forall|k: int| 0 <= k < cells.len() implies cell_free(tiles, (#[trigger] cells[k]).0, cells[k].1) by {
        assert(cells[k] == (base[k].0 as int, base[k].1 + 20));
        if occupied(tiles, cells[k].0, cells[k].1) {
            let i = choose|i: int|
                0 <= i < tiles.len() && (#[trigger] tiles[i]).0 == cells[k].0 && tiles[i].1 == cells[k].1;
            assert(tiles[i].1 >= GameBoard::ROW_COUNT - 1);
        }
    }
    assert(cells.no_duplicates()) by {
        assert(cells[0] == (base[0].0 as int, base[0].1 + 20));
        assert(cells[1] == (base[1].0 as int, base[1].1 + 20));
        assert(cells[2] == (base[2].0 as int, base[2].1 + 20));
        assert(cells[3] == (base[3].0 as int, base[3].1 + 20));
    }
    lemma_cells_apart(next.blocks@);
}

} // verus!
