//! What holds of every board: the operations keep a board well formed, and
//! the laws of shifting, turning, dropping, scoring and restarting.

use crate::point::Point;
use crate::tetris::board::{shape_blocked, Board, MIN_WIDTH};
use crate::tetris::field::{
    cell_blocked, cleared, drop_of, full_count, lemma_cleared_has_no_full_row,
    lemma_cleared_no_duplicates, lemma_cleared_source, lemma_cleared_target,
    lemma_full_count_bounds, line_score, occupied, row_cleared, row_full,
};
use crate::tetris::shapes::{
    lemma_four_turns, lemma_template_extent, lemma_turn_compact, template_cells,
};
use crate::tetris::Direction;
use vstd::prelude::*;

verus! {

/// A new game starts on a well-formed board, with no score, an empty field
/// and the game not over.
pub proof fn lemma_fresh_wf(width: int, height: int, next_index: int)
    requires
        MIN_WIDTH <= width <= u32::MAX,
        0 <= height <= u32::MAX,
        0 <= next_index < 7,
    ensures
        Board::fresh(width, height, next_index).wf(),
        !Board::fresh(width, height, next_index).over(),
        Board::fresh(width, height, next_index).score == 0,
        Board::fresh(width, height, next_index).settled.len() == 0,
{
    let b = Board::fresh(width, height, next_index);
    lemma_template_extent(0);
    assert forall|y: int| !#[trigger] row_cleared(b.settled, width, height, y) by {
        if row_full(b.settled, width, y) {
            assert(occupied(b.settled, 0, y));
        }
    }
}

/// A shift or a single drop keeps the board well formed.
pub proof fn lemma_stepped_wf(b: Board, dir: Direction)
    requires
        b.wf(),
    ensures
        b.stepped(dir).wf(),
{
    if !b.blocked(dir) {
        let m = b.moved(dir);
        assert forall|i: int| 0 <= i < 4 implies 0 <= (#[trigger] m.shape[i]).0 + m.ox < m.width
            && m.shape[i].1 + m.oy < m.height by {
            assert(!cell_blocked(
                b.settled,
                b.width,
                b.height,
                b.shape[i].0 + m.ox,
                b.shape[i].1 + m.oy,
            ));
        }
        assert(0 <= m.shape[0].0 + m.ox < m.width);
    }
}

/// A rotation keeps the board well formed.
pub proof fn lemma_rotated_wf(b: Board)
    requires
        b.wf(),
    ensures
        b.rotated().wf(),
{
    if b.can_turn() {
        let t = b.turned();
        lemma_turn_compact(b.shape);
        assert forall|i: int| 0 <= i < 4 implies 0 <= (#[trigger] t.shape[i]).0 + t.ox < t.width
            && t.shape[i].1 + t.oy < t.height by {
            assert(!cell_blocked(
                t.settled,
                t.width,
                t.height,
                t.shape[i].0 + t.ox,
                t.shape[i].1 + t.oy,
            ));
        }
    }
}

/// A hard drop keeps the board well formed and only lowers the active shape,
/// through free positions, to one from which no further drop is possible.
pub proof fn lemma_dropped_rests(b: Board)
    requires
        b.wf(),
    ensures
        b.dropped().wf(),
        b.dropped().blocked(Direction::Down),
        b.dropped() == (Board { oy: b.dropped().oy, ..b }),
        b.oy <= b.dropped().oy,
        forall|oy: int|
            b.oy < oy <= b.dropped().oy ==> !#[trigger] shape_blocked(
                b.shape,
                b.settled,
                b.width,
                b.height,
                b.ox,
                oy,
            ),
    decreases b.height + 2 - b.oy,
{
    if !b.blocked(Direction::Down) {
        let m = b.moved(Direction::Down);
        lemma_stepped_wf(b, Direction::Down);
        assert(!cell_blocked(
            b.settled,
            b.width,
            b.height,
            b.shape[0].0 + b.ox,
            b.shape[0].1 + b.oy + 1,
        ));
        lemma_dropped_rests(m);
    }
}

/// Whether the block `p` lies in one of the rows `0 .. hi`, as a number.
spec fn in_rows(p: Point, hi: int) -> int {
    if 0 <= p.1 < hi {
        1
    } else {
        0
    }
}

/// How many of four blocks lie in the rows `0 .. hi`.
spec fn hits(cells: Seq<Point>, hi: int) -> int {
    in_rows(cells[0], hi) + in_rows(cells[1], hi) + in_rows(cells[2], hi) + in_rows(cells[3], hi)
}

/// The cells of the active shape stay in the range of the coordinate type.
proof fn lemma_cells(b: Board)
    requires
        b.wf(),
    ensures
        b.cells().len() == 4,
        forall|k: int|
            0 <= k < 4 ==> (#[trigger] b.cells()[k]).0 == b.shape[k].0 + b.ox && b.cells()[k].1
                == b.shape[k].1 + b.oy,
        forall|i: int| 0 <= i < b.settled.len() ==> b.locked()[i] == b.settled[i],
        forall|i: int|
            b.settled.len() <= i < b.locked().len() ==> b.locked()[i] == b.cells()[i
                - b.settled.len()],
        b.locked().len() == b.settled.len() + 4,
{
}

/// A row of the field that a lock completes holds a cell of the locked shape.
proof fn lemma_full_row_is_hit(b: Board, y: int) -> (k: int)
    requires
        b.wf(),
        0 <= y < b.height,
        row_full(b.locked(), b.width, y),
    ensures
        0 <= k < 4,
        b.cells()[k].1 == y,
{
    lemma_cells(b);
    assert(!row_cleared(b.settled, b.width, b.height, y));
    let x = choose|x: int| 0 <= x < b.width && !occupied(b.settled, x, y);
    assert(occupied(b.locked(), x, y));
    let i = choose|i: int|
        0 <= i < b.locked().len() && (#[trigger] b.locked()[i]).0 == x && b.locked()[i].1 == y;
    if i < b.settled.len() {
        assert(b.settled[i].0 == x && b.settled[i].1 == y);
    }
    i - b.settled.len()
}

/// A lock completes no more rows among the rows `0 .. hi` than the locked
/// shape has cells there.
proof fn lemma_lock_fills(b: Board, hi: int)
    requires
        b.wf(),
        hi <= b.height,
    ensures
        full_count(b.locked(), b.width, 0, hi) <= hits(b.cells(), hi),
    decreases hi,
{
    if hi > 0 {
        lemma_lock_fills(b, hi - 1);
        if row_full(b.locked(), b.width, hi - 1) {
            let k = lemma_full_row_is_hit(b, hi - 1);
        }
    }
}

/// A lock completes at most four rows.
pub proof fn lemma_lines_bound(b: Board)
    requires
        b.wf(),
    ensures
        0 <= b.lines() <= 4,
{
    lemma_lock_fills(b, b.height);
    lemma_full_count_bounds(b.locked(), b.width, 0, b.height);
}

/// While the game is not over, a lock fills neither the top row of the
/// field nor a row above it.
proof fn lemma_lock_fills_no_row_above(b: Board)
    requires
        b.wf(),
        !b.over(),
    ensures
        forall|y: int| y <= 0 ==> !#[trigger] row_full(b.locked(), b.width, y),
{
    lemma_cells(b);
    let all = b.locked();
    let n = b.settled.len();
    assert forall|y: int| y <= 0 implies !#[trigger] row_full(all, b.width, y) by {
        if row_full(all, b.width, y) {
            assert(occupied(all, 0, y));
            assert(occupied(all, 1, y));
            assert(occupied(all, 2, y));
            assert(occupied(all, 3, y));
            assert(occupied(all, 4, y));
            let i0 = choose|i: int| 0 <= i < all.len() && (#[trigger] all[i]).0 == 0 && all[i].1 == y;
            let i1 = choose|i: int| 0 <= i < all.len() && (#[trigger] all[i]).0 == 1 && all[i].1 == y;
            let i2 = choose|i: int| 0 <= i < all.len() && (#[trigger] all[i]).0 == 2 && all[i].1 == y;
            let i3 = choose|i: int| 0 <= i < all.len() && (#[trigger] all[i]).0 == 3 && all[i].1 == y;
            let i4 = choose|i: int| 0 <= i < all.len() && (#[trigger] all[i]).0 == 4 && all[i].1 == y;
            if i0 < n {
                assert(b.settled[i0].1 <= 0);
            }
            if i1 < n {
                assert(b.settled[i1].1 <= 0);
            }
            if i2 < n {
                assert(b.settled[i2].1 <= 0);
            }
            if i3 < n {
                assert(b.settled[i3].1 <= 0);
            }
            if i4 < n {
                assert(b.settled[i4].1 <= 0);
            }
        }
    }
}

/// A range of rows without a full row counts no full row.
proof fn lemma_no_full_rows_count(settled: Seq<Point>, width: int, lo: int, hi: int)
    requires
        forall|y: int| lo <= y < hi && 0 <= y ==> !#[trigger] row_full(settled, width, y),
    ensures
        full_count(settled, width, lo, hi) == 0,
    decreases hi,
{
    if hi > lo && hi > 0 {
        lemma_no_full_rows_count(settled, width, lo, hi - 1);
    }
}

/// On a field of two rows or more, the settled blocks still lie inside the
/// field after a lock and a line-clear.
proof fn lemma_respawn_settled_inside(b: Board, drawn: int)
    requires
        b.wf(),
        b.height >= 2,
    ensures
        b.respawned(drawn).settled_inside(),
{
    lemma_cells(b);
    let all = b.locked();
    let after = cleared(all, b.width, b.height);
    assert forall|j: int| 0 <= j < after.len() implies 0 <= (#[trigger] after[j]).0 < b.width
        && after[j].1 < b.height by {
        let i = lemma_cleared_source(all, b.width, b.height, after[j].0 as int, after[j].1 as int);
        lemma_full_count_bounds(all, b.width, all[i].1 + 1, b.height);
        if i < b.settled.len() {
            assert(all[i] == b.settled[i]);
        } else {
            let k = i - b.settled.len();
            assert(all[i] == b.cells()[k]);
            assert(0 <= b.shape[k].0 + b.ox < b.width);
        }
    }
}

/// Where a lock puts a block onto a settled block, the shape was locked as
/// it was spawned, both blocks lie in row 1, and, unless the game is over
/// after it, the line-clear removes that row.
proof fn lemma_respawn_distinct(b: Board, drawn: int)
    requires
        b.wf(),
        !b.over(),
        !b.respawned(drawn).over(),
    ensures
        b.respawned(drawn).settled.no_duplicates(),
{
    lemma_cells(b);
    let all = b.locked();
    let n = b.settled.len() as int;
    let after = cleared(all, b.width, b.height);
    assert forall|i: int, j: int|
        0 <= i < j < all.len() && #[trigger] all[i] == #[trigger] all[j] implies row_cleared(
        all,
        b.width,
        b.height,
        all[i].1 as int,
    ) by {
        if j < n {
            assert(b.settled[i] == b.settled[j]);
        } else if i >= n {
            assert(b.shape[i - n] == b.shape[j - n]);
        } else {
            // A settled block under a cell of the active shape.
            let k = j - n;
            assert(b.settled[i].1 > 0);
            assert(cell_blocked(
                b.settled,
                b.width,
                b.height,
                b.shape[k].0 + b.ox,
                b.shape[k].1 + b.oy,
            ));
            assert(b.unmoved());
            lemma_template_extent(b.now_index);
            assert(all[i].1 == 1);
            if !row_cleared(all, b.width, b.height, 1) {
                let top = choose|t: int| 0 <= t < 4 && (#[trigger] template_cells(b.now_index)[t]).1 == 0;
                let at = n + top;
                assert(all[at] == b.cells()[top]);
                assert(all[at].1 == 0);
                lemma_lock_fills_no_row_above(b);
                assert forall|y: int| 1 <= y < b.height && 0 <= y implies !#[trigger] row_full(
                    all,
                    b.width,
                    y,
                ) by {
                    if row_full(all, b.width, y) {
                        let hit = lemma_full_row_is_hit(b, y);
                        assert(b.cells()[hit].1 == b.shape[hit].1 + b.oy);
                    }
                }
                lemma_no_full_rows_count(all, b.width, 1, b.height);
                assert(drop_of(all, b.width, b.height, 0) == 0);
                lemma_cleared_target(all, b.width, b.height, at);
                let gone = choose|g: int|
                    0 <= g < after.len() && (#[trigger] after[g]).0 == all[at].0 && after[g].1 == 0;
                assert(b.respawned(drawn).settled[gone].1 <= 0);
            }
        }
    }
    lemma_cleared_no_duplicates(all, b.width, b.height);
}

/// Lock, clear and spawn keep the board well formed, as long as the game is
/// not over and the new score fits the score's type.
pub proof fn lemma_respawned_wf(b: Board, drawn: int)
    requires
        b.wf(),
        !b.over(),
        0 <= drawn < 7,
        b.score + line_score(b.lines()) <= u32::MAX,
    ensures
        b.respawned(drawn).wf(),
{
    let r = b.respawned(drawn);
    lemma_template_extent(b.next_index);
    lemma_lines_bound(b);
    lemma_lock_fills_no_row_above(b);
    lemma_cleared_has_no_full_row(b.locked(), b.width, b.height);
    if b.height >= 2 {
        lemma_respawn_settled_inside(b, drawn);
    }
    if !r.over() {
        lemma_respawn_distinct(b, drawn);
    }
}

/// A tick keeps the board well formed, as long as the new score fits the
/// score's type.
pub proof fn lemma_tick_wf(b: Board, drawn: int)
    requires
        b.wf(),
        0 <= drawn < 7,
        b.tick(drawn).score <= u32::MAX,
    ensures
        b.tick(drawn).wf(),
{
    if b.over() {
    } else if b.blocked(Direction::Down) {
        lemma_respawned_wf(b, drawn);
    } else {
        lemma_stepped_wf(b, Direction::Down);
    }
}

/// On a field of at least two rows, every cell of the active shape lies
/// between the side walls and above the floor, on every board the engine
/// reaches.
pub proof fn lemma_active_inside(b: Board)
    requires
        b.wf(),
        b.height >= 2,
    ensures
        forall|i: int|
            0 <= i < 4 ==> 0 <= (#[trigger] b.cells()[i]).0 < b.width && b.cells()[i].1
                < b.height,
{
    lemma_cells(b);
    assert forall|i: int| 0 <= i < 4 implies 0 <= (#[trigger] b.cells()[i]).0 < b.width
        && b.cells()[i].1 < b.height by {
        assert(0 <= b.shape[i].0 + b.ox < b.width);
    }
}

/// While the game is not over, every settled block lies below the top row,
/// and no cell holds two settled blocks.
pub proof fn lemma_settled_blocks_distinct(b: Board)
    requires
        b.wf(),
        !b.over(),
    ensures
        b.settled.no_duplicates(),
        forall|i: int| 0 <= i < b.settled.len() ==> (#[trigger] b.settled[i]).1 >= 1,
{
}

/// On a field of two rows or more, every settled block lies between the
/// side walls and above the floor.
pub proof fn lemma_settled_blocks_inside(b: Board)
    requires
        b.wf(),
        b.height >= 2,
    ensures
        forall|i: int|
            0 <= i < b.settled.len() ==> 0 <= (#[trigger] b.settled[i]).0 < b.width
                && b.settled[i].1 < b.height,
{
}

/// An active shape that has been shifted, lowered or turned since it was
/// spawned stands on free cells: it collides with nothing where it stands.
pub proof fn lemma_moved_shape_is_free(b: Board)
    requires
        b.wf(),
        !b.unmoved(),
    ensures
        !b.stuck(),
        forall|i: int|
            0 <= i < 4 ==> !cell_blocked(
                b.settled,
                b.width,
                b.height,
                (#[trigger] b.shape[i]).0 + b.ox,
                b.shape[i].1 + b.oy,
            ),
{
}

/// A shift to the left that is made, from a position that is itself free, is
/// undone by the shift to the right that follows it.
pub proof fn lemma_left_then_right(b: Board)
    requires
        !b.stuck(),
        !b.blocked(Direction::Left),
    ensures
        b.stepped(Direction::Left).stepped(Direction::Right) == b,
{
}

/// A shift to the right that is made, from a position that is itself free,
/// is undone by the shift to the left that follows it.
pub proof fn lemma_right_then_left(b: Board)
    requires
        !b.stuck(),
        !b.blocked(Direction::Right),
    ensures
        b.stepped(Direction::Right).stepped(Direction::Left) == b,
{
}

/// Four rotations in a row, each of them accepted, bring back the board as
/// it was, offsets included.
pub proof fn lemma_four_rotations(b: Board)
    requires
        b.wf(),
        b.can_turn(),
        b.rotated().can_turn(),
        b.rotated().rotated().can_turn(),
        b.rotated().rotated().rotated().can_turn(),
    ensures
        b.rotated().rotated().rotated().rotated() == b,
{
    lemma_four_turns(b.shape);
}

/// A rotation leaves the square as it is, wherever it stands.
pub proof fn lemma_square_stays(b: Board)
    requires
        b.now_index == 6,
    ensures
        b.rotated() == b,
{
}

/// What a tick does to the score: a lock that completes 1, 2, 3 or 4 rows
/// adds 100, 300, 500 or 800; one that completes none, a fall, and a tick
/// after the end of the game add nothing. No lock completes more than four.
pub proof fn lemma_tick_score(b: Board, drawn: int)
    requires
        b.wf(),
    ensures
        !b.over() && b.blocked(Direction::Down) ==> b.tick(drawn).score == b.score + line_score(
            b.lines(),
        ),
        b.over() || !b.blocked(Direction::Down) ==> b.tick(drawn).score == b.score,
        0 <= b.lines() <= 4,
        line_score(0) == 0,
        line_score(1) == 100,
        line_score(2) == 300,
        line_score(3) == 500,
        line_score(4) == 800,
        b.score <= b.tick(drawn).score,
{
    lemma_lines_bound(b);
}

} // verus!
