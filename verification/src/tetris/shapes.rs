//! The seven shape templates and the quarter turn.

use crate::point::Point;
use vstd::prelude::*;

verus! {

/// The number of shape templates.
pub const SHAPE_COUNT: usize = 7;

/// The index of the square template, which is never turned.
pub const SQUARE: usize = 6;

/// The four offsets of each template, relative to its pivot.
pub open spec fn template_cells(index: int) -> Seq<Point> {
    if index == 0 {
        seq![Point(-1i64, 0), Point(0, 0), Point(0, 1), Point(1, 0)]
    } else if index == 1 {
        seq![Point(-1i64, 1), Point(0, 1), Point(0, 0), Point(1, 0)]
    } else if index == 2 {
        seq![Point(-1i64, 0), Point(0, 1), Point(0, 0), Point(1, 1)]
    } else if index == 3 {
        seq![Point(-1i64, 0), Point(0, 0), Point(1, 0), Point(2, 0)]
    } else if index == 4 {
        seq![Point(-1i64, 1), Point(-1i64, 0), Point(0, 0), Point(1, 0)]
    } else if index == 5 {
        seq![Point(-1i64, 0), Point(0, 0), Point(1, 0), Point(1, 1)]
    } else {
        seq![Point(0, 1), Point(0, 0), Point(1, 1), Point(1, 0)]
    }
}

/// A shape of four offsets, none further than two cells from the pivot.
pub open spec fn compact_shape(cells: Seq<Point>) -> bool {
    &&& cells.len() == 4
    &&& forall|i: int|
        0 <= i < 4 ==> -2 <= (#[trigger] cells[i]).0 <= 2 && -2 <= cells[i].1 <= 2
}

/// One offset after a quarter turn about the pivot: `(x, y)` goes to `(y, -x)`.
pub open spec fn turned(p: Point) -> Point {
    Point(p.1, (-p.0) as i64)
}

/// A shape after a quarter turn about the pivot.
pub open spec fn turned_cells(cells: Seq<Point>) -> Seq<Point> {
    cells.map_values(|p: Point| turned(p))
}

/// Hands out a copy of the template with the given index.
pub fn template(index: usize) -> (cells: [Point; 4])
    requires
        index < SHAPE_COUNT,
    ensures
        cells@ == template_cells(index as int),
{
    let cells = if index == 0 {
        [Point(-1, 0), Point(0, 0), Point(0, 1), Point(1, 0)]
    } else if index == 1 {
        [Point(-1, 1), Point(0, 1), Point(0, 0), Point(1, 0)]
    } else if index == 2 {
        [Point(-1, 0), Point(0, 1), Point(0, 0), Point(1, 1)]
    } else if index == 3 {
        [Point(-1, 0), Point(0, 0), Point(1, 0), Point(2, 0)]
    } else if index == 4 {
        [Point(-1, 1), Point(-1, 0), Point(0, 0), Point(1, 0)]
    } else if index == 5 {
        [Point(-1, 0), Point(0, 0), Point(1, 0), Point(1, 1)]
    } else {
        [Point(0, 1), Point(0, 0), Point(1, 1), Point(1, 0)]
    };
    assert(cells@ =~= template_cells(index as int));
    cells
}

/// Every template is a compact shape of four different cells, one of them
/// in row 0, that spans the rows 0 and 1 at most and the columns -1 to 2 at
/// most.
pub proof fn lemma_template_extent(index: int)
    ensures
        compact_shape(template_cells(index)),
        template_cells(index).no_duplicates(),
        forall|i: int|
            0 <= i < 4 ==> -1 <= (#[trigger] template_cells(index)[i]).0 <= 2 && 0
                <= template_cells(index)[i].1 <= 1,
        exists|i: int| 0 <= i < 4 && (#[trigger] template_cells(index)[i]).1 == 0,
{
    assert(template_cells(index)[1].1 == 0 || template_cells(index)[2].1 == 0);
}

/// A quarter turn keeps a shape compact, and its cells different.
pub proof fn lemma_turn_compact(cells: Seq<Point>)
    requires
        compact_shape(cells),
    ensures
        compact_shape(turned_cells(cells)),
        cells.no_duplicates() ==> turned_cells(cells).no_duplicates(),
{
}

/// Four quarter turns bring every compact shape back to itself.
pub proof fn lemma_four_turns(cells: Seq<Point>)
    requires
        compact_shape(cells),
    ensures
        turned_cells(turned_cells(turned_cells(turned_cells(cells)))) == cells,
{
    let once = turned_cells(cells);
    let twice = turned_cells(once);
    let thrice = turned_cells(twice);
    lemma_turn_compact(cells);
    lemma_turn_compact(once);
    lemma_turn_compact(twice);
    assert(turned_cells(thrice) =~= cells);
}

} // verus!
