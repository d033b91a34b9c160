//! The mathematical model of the engine: a board value and the transitions
//! that the engine's operations perform on it.

use crate::point::Point;
use crate::tetris::field::{cell_blocked, cleared, full_count, line_score, row_cleared};
use crate::tetris::shapes::{compact_shape, template_cells, turned_cells};
use crate::tetris::Direction;
use vstd::prelude::*;

verus! {

/// The narrowest field the engine works on: every template spawns inside
/// it, and no single shape can fill a row of it.
pub const MIN_WIDTH: u32 = 5;

/// The collision rule for a shape placed with its pivot at `(ox, oy)`.
pub open spec fn shape_blocked(
    shape: Seq<Point>,
    settled: Seq<Point>,
    width: int,
    height: int,
    ox: int,
    oy: int,
) -> bool {
    exists|i: int|
        0 <= i < shape.len() && cell_blocked(
            settled,
            width,
            height,
            (#[trigger] shape[i]).0 + ox,
            shape[i].1 + oy,
        )
}

impl Direction {
    /// The column step of a move in this direction.
    pub open spec fn dx(self) -> int {
        match self {
            Direction::Left => -1,
            Direction::Right => 1,
            Direction::Down => 0,
        }
    }

    /// The row step of a move in this direction.
    pub open spec fn dy(self) -> int {
        match self {
            Direction::Left => 0,
            Direction::Right => 0,
            Direction::Down => 1,
        }
    }
}

/// Everything the engine knows, as plain mathematics.
pub struct Board {
    /// The offsets of the active shape, relative to its pivot.
    pub shape: Seq<Point>,
    /// The settled blocks, in the order in which they were locked.
    pub settled: Seq<Point>,
    /// The number of columns of the field.
    pub width: int,
    /// The number of rows of the field.
    pub height: int,
    /// The column of the active shape's pivot.
    pub ox: int,
    /// The row of the active shape's pivot.
    pub oy: int,
    /// The score.
    pub score: int,
    /// The template of the active shape.
    pub now_index: int,
    /// The template of the preview shape.
    pub next_index: int,
}

impl Board {
    /// The board of a new game whose preview is the template `next_index`:
    /// the first template at the spawn position, in the middle of the top
    /// row, over an empty field.
    pub open spec fn fresh(width: int, height: int, next_index: int) -> Board {
        Board {
            shape: template_cells(0),
            settled: Seq::empty(),
            width,
            height,
            ox: width / 2,
            oy: 0,
            score: 0,
            now_index: 0,
            next_index,
        }
    }

    /// The field position of the `i`-th cell of the active shape.
    pub open spec fn cell(self, i: int) -> Point {
        Point((self.shape[i].0 + self.ox) as i64, (self.shape[i].1 + self.oy) as i64)
    }

    /// The field positions of the active shape.
    pub open spec fn cells(self) -> Seq<Point> {
        Seq::new(self.shape.len(), |i: int| self.cell(i))
    }

    /// The active shape lies inside the field: between its side walls and
    /// above its floor.
    pub open spec fn inside(self) -> bool {
        forall|i: int|
            0 <= i < self.shape.len() ==> 0 <= (#[trigger] self.shape[i]).0 + self.ox < self.width
                && self.shape[i].1 + self.oy < self.height
    }

    /// Every settled block lies inside the field: between its side walls and
    /// above its floor.
    pub open spec fn settled_inside(self) -> bool {
        forall|i: int|
            0 <= i < self.settled.len() ==> 0 <= (#[trigger] self.settled[i]).0 < self.width
                && self.settled[i].1 < self.height
    }

    /// The active shape is as it was spawned: its template, unturned, at the
    /// spawn position.
    pub open spec fn unmoved(self) -> bool {
        self.ox == self.width / 2 && self.oy == 0 && self.shape == template_cells(self.now_index)
    }

    /// The active shape collides where it stands.
    pub open spec fn stuck(self) -> bool {
        shape_blocked(self.shape, self.settled, self.width, self.height, self.ox, self.oy)
    }

    /// A move of one cell in the direction `dir` would collide.
    pub open spec fn blocked(self, dir: Direction) -> bool {
        shape_blocked(
            self.shape,
            self.settled,
            self.width,
            self.height,
            self.ox + dir.dx(),
            self.oy + dir.dy(),
        )
    }

    /// The board with the active shape moved by one cell, whatever is there.
    pub open spec fn moved(self, dir: Direction) -> Board {
        Board { ox: self.ox + dir.dx(), oy: self.oy + dir.dy(), ..self }
    }

    /// A shift or a single drop: the move is made unless it would collide.
    pub open spec fn stepped(self, dir: Direction) -> Board {
        if self.blocked(dir) {
            self
        } else {
            self.moved(dir)
        }
    }

    /// The board with the active shape turned by a quarter, whatever is there.
    pub open spec fn turned(self) -> Board {
        Board { shape: turned_cells(self.shape), ..self }
    }

    /// A rotation would be accepted: the shape is not the square, and turned
    /// in place it collides with nothing.
    pub open spec fn can_turn(self) -> bool {
        self.now_index != 6 && !self.turned().stuck()
    }

    /// A rotation: the turn is made if it is accepted, and dropped silently
    /// if not.
    pub open spec fn rotated(self) -> Board {
        if self.can_turn() {
            self.turned()
        } else {
            self
        }
    }

    /// A hard drop: single drops until the next one would collide. The shape
    /// is not locked; the next tick does that.
    pub open spec fn dropped(self) -> Board
        decreases self.height + 2 - self.oy,
        when compact_shape(self.shape)
    {
        if self.blocked(Direction::Down) {
            self
        } else {
            proof {
                assert(!cell_blocked(
                    self.settled,
                    self.width,
                    self.height,
                    self.shape[0].0 + self.ox,
                    self.shape[0].1 + self.oy + 1,
                ));
            }
            self.moved(Direction::Down).dropped()
        }
    }

    /// The game is over: the stack has reached the top row.
    pub open spec fn over(self) -> bool {
        exists|i: int| 0 <= i < self.settled.len() && (#[trigger] self.settled[i]).1 <= 0
    }

    /// The settled field with the active shape locked into it.
    pub open spec fn locked(self) -> Seq<Point> {
        self.settled + self.cells()
    }

    /// The number of rows that locking the active shape completes.
    pub open spec fn lines(self) -> int {
        full_count(self.locked(), self.width, 0, self.height)
    }

    /// The points that the next tick awards: those of the rows that a lock
    /// completes, where the tick locks, and none where it does not.
    pub open spec fn gain(self) -> int {
        if !self.over() && self.blocked(Direction::Down) {
            line_score(self.lines())
        } else {
            0
        }
    }

    /// Lock, clear and spawn: the active shape is locked, the full rows are
    /// cleared and scored, the preview becomes the active shape at the spawn
    /// position, and `drawn` becomes the preview.
    pub open spec fn respawned(self, drawn: int) -> Board {
        Board {
            shape: template_cells(self.next_index),
            settled: cleared(self.locked(), self.width, self.height),
            width: self.width,
            height: self.height,
            ox: self.width / 2,
            oy: 0,
            score: self.score + line_score(self.lines()),
            now_index: self.next_index,
            next_index: drawn,
        }
    }

    /// One tick. A finished game stays as it is. Otherwise the active shape
    /// falls by one row if it can, and else is locked, with `drawn` as the
    /// next preview.
    pub open spec fn tick(self, drawn: int) -> Board {
        if self.over() {
            self
        } else if self.blocked(Direction::Down) {
            self.respawned(drawn)
        } else {
            self.moved(Direction::Down)
        }
    }

    /// What every board of the engine satisfies. The sizes and indices are in
    /// range, and the active shape is made of four different cells near its
    /// pivot. No row of the field is full. On a field of two rows or more,
    /// the active shape and the settled blocks lie inside the field. While
    /// the game is not over, no cell holds two settled blocks. And an active
    /// shape that collides where it stands has not moved since it was
    /// spawned.
    pub open spec fn wf(self) -> bool {
        &&& MIN_WIDTH <= self.width <= u32::MAX
        &&& 0 <= self.height <= u32::MAX
        &&& 0 <= self.score <= u32::MAX
        &&& 0 <= self.now_index < 7
        &&& 0 <= self.next_index < 7
        &&& compact_shape(self.shape)
        &&& self.shape.no_duplicates()
        &&& -2 <= self.ox <= self.width + 1
        &&& 0 <= self.oy <= self.height + 1
        &&& forall|y: int| !#[trigger] row_cleared(self.settled, self.width, self.height, y)
        &&& self.height >= 2 ==> self.inside() && self.settled_inside()
        &&& !self.over() ==> self.settled.no_duplicates()
        &&& self.stuck() ==> self.unmoved()
    }
}

} // verus!
