//! The play-field rules as functions of plain values: which cells are taken,
//! which candidate positions collide, which rows are full, and what a
//! line-clear leaves behind. The engine is built from these.

use crate::point::Point;
use vstd::prelude::*;

verus! {

/// The settled field holds a block at column `x`, row `y`.
pub open spec fn occupied(settled: Seq<Point>, x: int, y: int) -> bool {
    exists|i: int| 0 <= i < settled.len() && (#[trigger] settled[i]).0 == x && settled[i].1 == y
}

/// The collision rule for one cell: it lies left or right of the field, at or
/// below its floor, or on a settled block. Rows above the field are free.
pub open spec fn cell_blocked(settled: Seq<Point>, width: int, height: int, x: int, y: int) -> bool {
    x < 0 || x >= width || y >= height || occupied(settled, x, y)
}

/// The collision rule for a candidate position: some cell of it is blocked.
pub open spec fn any_blocked(cells: Seq<Point>, settled: Seq<Point>, width: int, height: int) -> bool {
    exists|i: int|
        0 <= i < cells.len() && cell_blocked(
            settled,
            width,
            height,
            (#[trigger] cells[i]).0 as int,
            cells[i].1 as int,
        )
}

/// Every column of row `y` is taken.
pub open spec fn row_full(settled: Seq<Point>, width: int, y: int) -> bool {
    forall|x: int| 0 <= x < width ==> occupied(settled, x, y)
}

/// The number of full rows among the rows `lo .. hi` of the field (rows above
/// the field, with a negative index, never count).
pub open spec fn full_count(settled: Seq<Point>, width: int, lo: int, hi: int) -> int
    decreases hi,
{
    if hi <= lo || hi <= 0 {
        0
    } else {
        full_count(settled, width, lo, hi - 1) + if row_full(settled, width, hi - 1) {
            1int
        } else {
            0int
        }
    }
}

/// The full rows of a field of the given height, from the top down.
pub open spec fn full_rows(settled: Seq<Point>, width: int, height: int) -> Seq<i64>
    decreases height,
{
    if height <= 0 {
        Seq::empty()
    } else {
        let above = full_rows(settled, width, height - 1);
        if row_full(settled, width, height - 1) {
            above.push((height - 1) as i64)
        } else {
            above
        }
    }
}

/// Row `y` is removed by a line-clear: it lies in the field and is full.
pub open spec fn row_cleared(settled: Seq<Point>, width: int, height: int, y: int) -> bool {
    0 <= y < height && row_full(settled, width, y)
}

/// How far a block in row `y` sinks in a line-clear: the number of full rows
/// strictly below it.
pub open spec fn drop_of(settled: Seq<Point>, width: int, height: int, y: int) -> int {
    full_count(settled, width, y + 1, height)
}

/// Where the block `p` comes to rest after a line-clear.
pub open spec fn sunk(settled: Seq<Point>, width: int, height: int, p: Point) -> Point {
    Point(p.0, (p.1 + drop_of(settled, width, height, p.1 as int)) as i64)
}

/// The test a block passes to outlive a line-clear: its row is not removed.
pub open spec fn survives(settled: Seq<Point>, width: int, height: int) -> spec_fn(Point) -> bool {
    |p: Point| !row_cleared(settled, width, height, p.1 as int)
}

/// The move a surviving block makes in a line-clear.
pub open spec fn sinking(settled: Seq<Point>, width: int, height: int) -> spec_fn(Point) -> Point {
    |p: Point| sunk(settled, width, height, p)
}

/// The field after a line-clear: the blocks outside the full rows, in their
/// old order, each sunk by the number of full rows below it.
pub open spec fn cleared(settled: Seq<Point>, width: int, height: int) -> Seq<Point> {
    settled.filter(survives(settled, width, height)).map_values(sinking(settled, width, height))
}

/// The number of entries of `lines` that lie strictly below row `y`.
pub open spec fn count_below(lines: Seq<i64>, y: int) -> int
    decreases lines.len(),
{
    if lines.len() == 0 {
        0
    } else {
        count_below(lines.drop_last(), y) + if lines.last() > y {
            1int
        } else {
            0int
        }
    }
}

/// The points awarded for clearing `lines` rows at once.
pub open spec fn line_score(lines: int) -> int {
    if lines == 1 {
        100
    } else if lines == 2 {
        300
    } else if lines == 3 {
        500
    } else if lines == 4 {
        800
    } else {
        0
    }
}

/// The points awarded for clearing `lines` rows at once: 100, 300, 500 and
/// 800 for one to four rows, and none for any other number.
pub fn points_for(lines: usize) -> (points: u32)
    ensures
        points == line_score(lines as int),
{
    if lines == 1 {
        100
    } else if lines == 2 {
        300
    } else if lines == 3 {
        500
    } else if lines == 4 {
        800
    } else {
        0
    }
}

/// Tells whether the settled field holds `cell`.
pub fn holds(settled: &Vec<Point>, cell: Point) -> (found: bool)
    ensures
        found == occupied(settled@, cell.0 as int, cell.1 as int),
{
    let mut i: usize = 0;
    while i < settled.len()
        invariant
            i <= settled.len(),
            forall|j: int|
                0 <= j < i ==> !((#[trigger] settled@[j]).0 == cell.0 && settled@[j].1 == cell.1),
        decreases settled.len() - i,
    {
        if settled[i].0 == cell.0 && settled[i].1 == cell.1 {
            return true;
        }
        i += 1;
    }
    false
}

/// The shared collision test: whether any of `cells` leaves the field
/// sideways or through the floor, or lands on a settled block.
pub fn collides(cells: &Vec<Point>, settled: &Vec<Point>, width: u32, height: u32) -> (hit: bool)
    ensures
        hit == any_blocked(cells@, settled@, width as int, height as int),
{
    let mut i: usize = 0;
    while i < cells.len()
        invariant
            i <= cells.len(),
            forall|j: int|
                0 <= j < i ==> !cell_blocked(
                    settled@,
                    width as int,
                    height as int,
                    (#[trigger] cells@[j]).0 as int,
                    cells@[j].1 as int,
                ),
        decreases cells.len() - i,
    {
        let p = cells[i];
        if p.0 < 0 || p.0 >= width as i64 || p.1 >= height as i64 || holds(settled, p) {
            return true;
        }
        i += 1;
    }
    false
}

/// Tells whether every column of row `y` is taken.
pub fn row_is_full(settled: &Vec<Point>, width: u32, y: i64) -> (full: bool)
    ensures
        full == row_full(settled@, width as int, y as int),
{
    let mut x: u32 = 0;
    while x < width
        invariant
            x <= width,
            forall|k: int| 0 <= k < x ==> occupied(settled@, k, y as int),
        decreases width - x,
    {
        if !holds(settled, Point(x as i64, y)) {
            return false;
        }
        x += 1;
    }
    true
}

/// Collects the full rows of the field in ascending order.
pub fn full_lines(settled: &Vec<Point>, width: u32, height: u32) -> (lines: Vec<i64>)
    ensures
        lines@ == full_rows(settled@, width as int, height as int),
{
    let mut lines: Vec<i64> = Vec::new();
    let mut y: u32 = 0;
    while y < height
        invariant
            y <= height,
            lines@ == full_rows(settled@, width as int, y as int),
        decreases height - y,
    {
        if row_is_full(settled, width, y as i64) {
            lines.push(y as i64);
        }
        y += 1;
    }
    lines
}

/// A range of rows holds no more full rows than it has rows inside the field.
pub proof fn lemma_full_count_bounds(settled: Seq<Point>, width: int, lo: int, hi: int)
    ensures
        0 <= full_count(settled, width, lo, hi),
        full_count(settled, width, lo, hi) == 0 || (full_count(settled, width, lo, hi) <= hi
            && full_count(settled, width, lo, hi) <= hi - lo),
    decreases hi,
{
    if hi <= lo || hi <= 0 {
    } else {
        lemma_full_count_bounds(settled, width, lo, hi - 1);
    }
}

/// What the list of full rows holds: exactly the rows that a line-clear
/// removes, and as many of them below a given row as `drop_of` counts.
pub proof fn lemma_full_rows(settled: Seq<Point>, width: int, height: int)
    requires
        height <= i64::MAX,
    ensures
        full_rows(settled, width, height).len() == full_count(settled, width, 0, height),
        forall|y: i64| #[trigger]
            full_rows(settled, width, height).contains(y) <==> row_cleared(
                settled,
                width,
                height,
                y as int,
            ),
        forall|y: int|
            count_below(full_rows(settled, width, height), y) == #[trigger] drop_of(
                settled,
                width,
                height,
                y,
            ),
    decreases height,
{
    let rows = full_rows(settled, width, height);
    if height <= 0 {
        assert forall|y: int| count_below(rows, y) == #[trigger] drop_of(
            settled,
            width,
            height,
            y,
        ) by {}
    } else {
        let above = full_rows(settled, width, height - 1);
        lemma_full_rows(settled, width, height - 1);
        assert forall|y: i64| #[trigger] rows.contains(y) <==> row_cleared(
            settled,
            width,
            height,
            y as int,
        ) by {
            if rows.contains(y) {
                let k = choose|k: int| 0 <= k < rows.len() && rows[k] == y;
                if k < above.len() {
                    assert(above[k] == y);
                    assert(above.contains(y));
                }
            }
            if row_cleared(settled, width, height, y as int) {
                if y == height - 1 {
                    assert(rows[rows.len() - 1] == y);
                } else {
                    assert(above.contains(y));
                    let k = choose|k: int| 0 <= k < above.len() && above[k] == y;
                    assert(rows[k] == y);
                }
            }
        }
        assert forall|y: int| count_below(rows, y) == #[trigger] drop_of(
            settled,
            width,
            height,
            y,
        ) by {
            assert(count_below(above, y) == drop_of(settled, width, height - 1, y));
            if row_full(settled, width, height - 1) {
                assert(rows.drop_last() =~= above);
            }
            if height - 1 <= y {
                lemma_full_count_bounds(settled, width, y + 1, height - 1);
            }
        }
    }
}

/// The full rows of a range are those of its upper part and those of its
/// lower part.
pub proof fn lemma_full_count_split(settled: Seq<Point>, width: int, lo: int, mid: int, hi: int)
    requires
        lo <= mid <= hi,
    ensures
        full_count(settled, width, lo, hi) == full_count(settled, width, lo, mid) + full_count(
            settled,
            width,
            mid,
            hi,
        ),
    decreases hi,
{
    if hi <= mid || hi <= 0 {
        lemma_full_count_bounds(settled, width, mid, hi);
    } else {
        lemma_full_count_split(settled, width, lo, mid, hi - 1);
    }
}

/// The number of rows that a line-clear removes strictly between the rows
/// `a` and `b`.
pub open spec fn cleared_between(settled: Seq<Point>, width: int, height: int, a: int, b: int) -> int {
    full_count(
        settled,
        width,
        a + 1,
        if b < height {
            b
        } else {
            height
        },
    )
}

/// A line-clear keeps the surviving rows in order and closes exactly the
/// gaps that the removed rows leave: of two rows that survive, the upper one
/// stays above the lower one, and their distance shrinks by the number of
/// rows removed between them.
pub proof fn lemma_clear_keeps_row_order(
    settled: Seq<Point>,
    width: int,
    height: int,
    a: int,
    b: int,
)
    requires
        a < b,
        !row_cleared(settled, width, height, a),
        !row_cleared(settled, width, height, b),
    ensures
        a + drop_of(settled, width, height, a) < b + drop_of(settled, width, height, b),
        (b + drop_of(settled, width, height, b)) - (a + drop_of(settled, width, height, a)) == (b
            - a) - cleared_between(settled, width, height, a, b),
        0 <= cleared_between(settled, width, height, a, b),
{
    if b < height {
        lemma_full_count_split(settled, width, a + 1, b + 1, height);
        lemma_full_count_bounds(settled, width, a + 1, b);
    } else {
        lemma_full_count_bounds(settled, width, a + 1, height);
        lemma_full_count_bounds(settled, width, b + 1, height);
    }
}

/// Every block of the field after a line-clear is a block of the field
/// before it, outside the removed rows, in its column and sunk by `drop_of`.
/// Hands back the index of such a block for the block at `(x, y)`.
pub proof fn lemma_cleared_source(settled: Seq<Point>, width: int, height: int, x: int, y: int) -> (i:
    int)
    requires
        height <= i64::MAX,
        occupied(cleared(settled, width, height), x, y),
    ensures
        0 <= i < settled.len(),
        !row_cleared(settled, width, height, settled[i].1 as int),
        settled[i].0 == x,
        settled[i].1 + drop_of(settled, width, height, settled[i].1 as int) == y,
{
    let keep = survives(settled, width, height);
    let sink = sinking(settled, width, height);
    let kept = settled.filter(keep);
    let after = cleared(settled, width, height);
    let j = choose|j: int| 0 <= j < after.len() && (#[trigger] after[j]).0 == x && after[j].1 == y;
    let p = kept[j];
    kept.lemma_index_contains(j);
    settled.lemma_filter_pred(keep, j);
    settled.lemma_filter_contains_rev(keep, p);
    let i = choose|i: int| 0 <= i < settled.len() && settled[i] == p;
    lemma_full_count_bounds(settled, width, p.1 + 1, height);
    i
}

/// Every block outside the removed rows is still there after a line-clear,
/// in its column and sunk by `drop_of`.
pub proof fn lemma_cleared_target(settled: Seq<Point>, width: int, height: int, i: int)
    requires
        height <= i64::MAX,
        0 <= i < settled.len(),
        !row_cleared(settled, width, height, settled[i].1 as int),
    ensures
        occupied(
            cleared(settled, width, height),
            settled[i].0 as int,
            settled[i].1 + drop_of(settled, width, height, settled[i].1 as int),
        ),
{
    let keep = survives(settled, width, height);
    let kept = settled.filter(keep);
    let after = cleared(settled, width, height);
    let p = settled[i];
    settled.lemma_filter_contains(keep, i);
    let j = choose|j: int| 0 <= j < kept.len() && kept[j] == p;
    lemma_full_count_bounds(settled, width, p.1 + 1, height);
    assert(after[j] == sunk(settled, width, height, p));
}

/// A row that is full after a line-clear was a full row before it that the
/// line-clear did not remove. Hands back that row.
pub proof fn lemma_cleared_row_source(settled: Seq<Point>, width: int, height: int, y: int) -> (r:
    int)
    requires
        0 < width,
        height <= i64::MAX,
        row_full(cleared(settled, width, height), width, y),
    ensures
        !row_cleared(settled, width, height, r),
        r + drop_of(settled, width, height, r) == y,
        row_full(settled, width, r),
{
    let after = cleared(settled, width, height);
    assert(occupied(after, 0, y));
    let i0 = lemma_cleared_source(settled, width, height, 0, y);
    let r = settled[i0].1 as int;
    assert forall|x: int| 0 <= x < width implies occupied(settled, x, r) by {
        assert(occupied(after, x, y));
        let i = lemma_cleared_source(settled, width, height, x, y);
        let rx = settled[i].1 as int;
        if rx < r {
            lemma_clear_keeps_row_order(settled, width, height, rx, r);
        }
        if r < rx {
            lemma_clear_keeps_row_order(settled, width, height, r, rx);
        }
    }
    r
}

/// A line-clear leaves no full row in the field, as long as no row above the
/// field was full.
pub proof fn lemma_cleared_has_no_full_row(settled: Seq<Point>, width: int, height: int)
    requires
        0 < width,
        height <= i64::MAX,
        forall|y: int| y < 0 ==> !#[trigger] row_full(settled, width, y),
    ensures
        forall|y: int| !#[trigger] row_cleared(cleared(settled, width, height), width, height, y),
{
    let after = cleared(settled, width, height);
    assert forall|y: int| !#[trigger] row_cleared(after, width, height, y) by {
        if row_cleared(after, width, height, y) {
            let r = lemma_cleared_row_source(settled, width, height, y);
            lemma_full_count_bounds(settled, width, r + 1, height);
        }
    }
}

/// The blocks of the first `n` settled blocks that outlive a line-clear are
/// all different, as long as only removed rows hold a block twice.
proof fn lemma_kept_no_duplicates(settled: Seq<Point>, width: int, height: int, n: int)
    requires
        0 <= n <= settled.len(),
        forall|i: int, j: int|
            0 <= i < j < settled.len() && #[trigger] settled[i] == #[trigger] settled[j]
                ==> row_cleared(settled, width, height, settled[i].1 as int),
    ensures
        settled.take(n).filter(survives(settled, width, height)).no_duplicates(),
    decreases n,
{
    let keep = survives(settled, width, height);
    if n == 0 {
        settled.take(0).lemma_filter_len(keep);
    } else {
        lemma_kept_no_duplicates(settled, width, height, n - 1);
        let before = settled.take(n - 1);
        let p = settled[n - 1];
        let kept = before.filter(keep);
        settled.lemma_take_succ_push(n - 1);
        before.lemma_filter_push(p, keep);
        if keep(p) {
            if kept.contains(p) {
                before.lemma_filter_contains_rev(keep, p);
                let i = choose|i: int| 0 <= i < before.len() && before[i] == p;
                assert(settled[i] == settled[n - 1]);
            }
            assert forall|i: int, j: int|
                0 <= i < kept.push(p).len() && 0 <= j < kept.push(p).len() && i != j implies kept.push(
                p,
            )[i] != kept.push(p)[j] by {
                if i == kept.len() {
                    kept.lemma_index_contains(j);
                } else if j == kept.len() {
                    kept.lemma_index_contains(i);
                }
            }
        }
    }
}

/// A line-clear leaves no block twice in the field, as long as only the
/// rows that it removes held a block twice.
pub proof fn lemma_cleared_no_duplicates(settled: Seq<Point>, width: int, height: int)
    requires
        height <= i64::MAX,
        forall|i: int, j: int|
            0 <= i < j < settled.len() && #[trigger] settled[i] == #[trigger] settled[j]
                ==> row_cleared(settled, width, height, settled[i].1 as int),
    ensures
        cleared(settled, width, height).no_duplicates(),
{
    let keep = survives(settled, width, height);
    let kept = settled.filter(keep);
    let after = cleared(settled, width, height);
    lemma_kept_no_duplicates(settled, width, height, settled.len() as int);
    assert(settled.take(settled.len() as int) =~= settled);
    assert forall|i: int, j: int|
        0 <= i < after.len() && 0 <= j < after.len() && i != j implies after[i] != after[j] by {
        let p = kept[i];
        let q = kept[j];
        settled.lemma_filter_pred(keep, i);
        settled.lemma_filter_pred(keep, j);
        lemma_full_count_bounds(settled, width, p.1 + 1, height);
        lemma_full_count_bounds(settled, width, q.1 + 1, height);
        if p.1 < q.1 {
            lemma_clear_keeps_row_order(settled, width, height, p.1 as int, q.1 as int);
        }
        if q.1 < p.1 {
            lemma_clear_keeps_row_order(settled, width, height, q.1 as int, p.1 as int);
        }
    }
}

/// Tells whether `y` is one of `lines`.
fn is_line(lines: &Vec<i64>, y: i64) -> (found: bool)
    ensures
        found == lines@.contains(y),
{
    let mut i: usize = 0;
    while i < lines.len()
        invariant
            i <= lines.len(),
            forall|j: int| 0 <= j < i ==> lines@[j] != y,
        decreases lines.len() - i,
    {
        if lines[i] == y {
            return true;
        }
        i += 1;
    }
    false
}

/// Counts the entries of `lines` that lie strictly below row `y`.
fn lines_below(lines: &Vec<i64>, y: i64) -> (n: usize)
    ensures
        n == count_below(lines@, y as int),
        n <= lines.len(),
{
    let mut n: usize = 0;
    let mut i: usize = 0;
    while i < lines.len()
        invariant
            i <= lines.len(),
            n <= i,
            n == count_below(lines@.take(i as int), y as int),
        decreases lines.len() - i,
    {
        proof {
            assert(lines@.take(i + 1).drop_last() =~= lines@.take(i as int));
        }
        if lines[i] > y {
            n += 1;
        }
        i += 1;
    }
    proof {
        assert(lines@.take(lines.len() as int) =~= lines@);
    }
    n
}

/// Removes every full row of the field and lets the blocks above sink. Hands
/// back the new field and the number of rows removed.
pub fn clear_lines(settled: &Vec<Point>, width: u32, height: u32) -> (r: (Vec<Point>, usize))
    ensures
        r.0@ == cleared(settled@, width as int, height as int),
        r.1 == full_count(settled@, width as int, 0, height as int),
{
    let lines = full_lines(settled, width, height);
    let ghost keep = survives(settled@, width as int, height as int);
    let ghost sink = sinking(settled@, width as int, height as int);
    proof {
        lemma_full_rows(settled@, width as int, height as int);
        lemma_full_count_bounds(settled@, width as int, 0, height as int);
    }
    let mut out: Vec<Point> = Vec::new();
    let mut i: usize = 0;
    while i < settled.len()
        invariant
            i <= settled.len(),
            keep == survives(settled@, width as int, height as int),
            sink == sinking(settled@, width as int, height as int),
            lines.len() <= height,
            forall|y: i64| #[trigger]
                lines@.contains(y) <==> row_cleared(settled@, width as int, height as int, y as int),
            forall|y: int|
                count_below(lines@, y) == #[trigger] drop_of(
                    settled@,
                    width as int,
                    height as int,
                    y,
                ),
            out@ == settled@.take(i as int).filter(keep).map_values(sink),
        decreases settled.len() - i,
    {
        let p = settled[i];
        proof {
            settled@.lemma_take_succ_push(i as int);
            settled@.take(i as int).lemma_filter_push(p, keep);
            settled@.take(i as int).filter(keep).lemma_push_map_commute(sink, p);
        }
        if !is_line(&lines, p.1) {
            let below = lines_below(&lines, p.1);
            proof {
                lemma_full_count_bounds(settled@, width as int, p.1 + 1, height as int);
                assert(below == drop_of(settled@, width as int, height as int, p.1 as int));
            }
            out.push(Point(p.0, p.1 + below as i64));
        }
        i += 1;
    }
    proof {
        assert(settled@.take(settled.len() as int) =~= settled@);
    }
    (out, lines.len())
}

} // verus!
