//! The block-stacking engine.
//!
//! The engine owns the field, the active shape, the preview and the score.
//! A host calls `move_on` once per tick and the shift, rotate and drop
//! operations once per input event. Two policies are fixed here. A hard drop
//! only lowers the active shape; the tick that follows locks it. And the end
//! of a game is final: once the stack has reached the top row, every tick
//! leaves the engine as it is and reports the end again, until `reset`.

pub mod board;
pub mod field;
pub mod laws;
pub mod shapes;

use crate::chance::draw_between;
pub use crate::point::Point;
use crate::tetris::board::{shape_blocked, Board, MIN_WIDTH};
use crate::tetris::field::{
    any_blocked, cell_blocked, clear_lines, cleared, collides, full_count, line_score,
    points_for,
};
use crate::tetris::laws::{
    lemma_dropped_rests, lemma_fresh_wf, lemma_lines_bound, lemma_respawned_wf, lemma_rotated_wf,
    lemma_stepped_wf,
};
use crate::tetris::shapes::{
    compact_shape, lemma_template_extent, template, template_cells, turned, turned_cells,
    SHAPE_COUNT, SQUARE,
};
use vstd::prelude::*;

verus! {

/// The directions in which the active shape moves.
#[derive(Debug, Clone, Copy, PartialEq, Eq, Structural)]
pub enum Direction {
    Left,
    Right,
    Down,
}

/// What a tick reports once the game is over.
pub const GAME_OVER: &'static str = "You lose! Game over...";

/// The engine.
pub struct Tetris {
    now_shape: Vec<Point>,
    bottom: Vec<Point>,
    width: u32,
    height: u32,
    offset: Point,
    score: u32,
    now_index: usize,
    next_index: usize,
}

impl View for Tetris {
    type V = Board;

    closed spec fn view(&self) -> Board {
        Board {
            shape: self.now_shape@,
            settled: self.bottom@,
            width: self.width as int,
            height: self.height as int,
            ox: self.offset.0 as int,
            oy: self.offset.1 as int,
            score: self.score as int,
            now_index: self.now_index as int,
            next_index: self.next_index as int,
        }
    }
}

/// Draws the index of a template.
fn rand_index() -> (index: usize)
    ensures
        index < SHAPE_COUNT,
{
    draw_between(0, SHAPE_COUNT)
}

/// A shape placed at a position collides exactly if its cells there do.
proof fn lemma_placed_blocked(
    shape: Seq<Point>,
    cells: Seq<Point>,
    settled: Seq<Point>,
    width: int,
    height: int,
    ox: int,
    oy: int,
)
    requires
        cells.len() == shape.len(),
        forall|i: int|
            0 <= i < shape.len() ==> (#[trigger] cells[i]).0 == shape[i].0 + ox && cells[i].1
                == shape[i].1 + oy,
    ensures
        any_blocked(cells, settled, width, height) == shape_blocked(
            shape,
            settled,
            width,
            height,
            ox,
            oy,
        ),
{
    if any_blocked(cells, settled, width, height) {
        let i = choose|i: int|
            0 <= i < cells.len() && cell_blocked(
                settled,
                width,
                height,
                (#[trigger] cells[i]).0 as int,
                cells[i].1 as int,
            );
        assert(cell_blocked(settled, width, height, shape[i].0 + ox, shape[i].1 + oy));
    }
    if shape_blocked(shape, settled, width, height, ox, oy) {
        let i = choose|i: int|
            0 <= i < shape.len() && cell_blocked(
                settled,
                width,
                height,
                (#[trigger] shape[i]).0 + ox,
                shape[i].1 + oy,
            );
        assert(cell_blocked(settled, width, height, cells[i].0 as int, cells[i].1 as int));
    }
}

/// The field positions of a shape whose pivot stands at `by`.
fn place_at(shape: &Vec<Point>, by: Point) -> (cells: Vec<Point>)
    requires
        forall|i: int| 0 <= i < shape.len() ==> (#[trigger] shape[i]).can_add(by),
    ensures
        cells.len() == shape.len(),
        forall|i: int| 0 <= i < shape.len() ==> #[trigger] cells[i] == shape[i].plus(by),
{
    let mut cells: Vec<Point> = Vec::new();
    let mut i: usize = 0;
    while i < shape.len()
        invariant
            i <= shape.len(),
            cells.len() == i,
            forall|j: int| 0 <= j < shape.len() ==> (#[trigger] shape[j]).can_add(by),
            forall|j: int| 0 <= j < i ==> #[trigger] cells[j] == shape[j].plus(by),
        decreases shape.len() - i,
    {
        cells.push(shape[i] + by);
        i += 1;
    }
    cells
}

/// The offsets of a template, as a vector.
fn template_vec(index: usize) -> (cells: Vec<Point>)
    requires
        index < SHAPE_COUNT,
    ensures
        cells@ == template_cells(index as int),
{
    let from = template(index);
    let mut cells: Vec<Point> = Vec::new();
    cells.push(from[0]);
    cells.push(from[1]);
    cells.push(from[2]);
    cells.push(from[3]);
    proof {
        lemma_template_extent(index as int);
        assert(cells@ =~= from@);
    }
    cells
}

impl Tetris {
    /// Starts a game on a field of `width` columns and `height` rows, with
    /// the template `next_index` as the preview.
    pub fn with_preview(width: u32, height: u32, next_index: usize) -> (game: Tetris)
        requires
            MIN_WIDTH <= width,
            next_index < SHAPE_COUNT,
        ensures
            game@ == Board::fresh(width as int, height as int, next_index as int),
            game@.wf(),
    {
        proof {
            lemma_fresh_wf(width as int, height as int, next_index as int);
        }
        Tetris {
            now_shape: template_vec(0),
            bottom: Vec::new(),
            width,
            height,
            offset: Point((width / 2) as i64, 0),
            score: 0,
            now_index: 0,
            next_index,
        }
    }

    /// Starts a game on a field of `width` columns and `height` rows, with a
    /// preview drawn at random.
    pub fn new_with_bounds(width: u32, height: u32) -> (game: Tetris)
        requires
            MIN_WIDTH <= width,
        ensures
            game@ == Board::fresh(width as int, height as int, game@.next_index),
            game@.wf(),
    {
        Tetris::with_preview(width, height, rand_index())
    }

    /// Starts the game over on the same field, with the template
    /// `next_index` as the preview.
    pub fn reset_with(&mut self, next_index: usize)
        requires
            old(self)@.wf(),
            next_index < SHAPE_COUNT,
        ensures
            final(self)@ == Board::fresh(old(self)@.width, old(self)@.height, next_index as int),
            final(self)@.score == 0,
            final(self)@.settled.len() == 0,
            final(self)@.wf(),
    {
        proof {
            lemma_fresh_wf(self.width as int, self.height as int, next_index as int);
        }
        self.bottom.clear();
        self.score = 0;
        self.offset = Point((self.width / 2) as i64, 0);
        self.now_shape = template_vec(0);
        self.now_index = 0;
        self.next_index = next_index;
    }

    /// Starts the game over on the same field: the field is emptied, the
    /// score is zero again, and the shapes are set up as in a new game.
    pub fn reset(&mut self)
        requires
            old(self)@.wf(),
        ensures
            final(self)@ == Board::fresh(
                old(self)@.width,
                old(self)@.height,
                final(self)@.next_index,
            ),
            final(self)@.score == 0,
            final(self)@.settled.len() == 0,
            final(self)@.wf(),
    {
        self.reset_with(rand_index());
    }

    /// The settled blocks.
    pub fn bottom(&self) -> (settled: &Vec<Point>)
        ensures
            settled@ == self@.settled,
    {
        &self.bottom
    }

    /// The field positions of the active shape.
    pub fn now_shape(&self) -> (cells: Vec<Point>)
        requires
            self@.wf(),
        ensures
            cells@ == self@.cells(),
    {
        let cells = place_at(&self.now_shape, self.offset);
        assert(cells@ =~= self@.cells());
        cells
    }

    /// The offsets of the preview shape, about its pivot.
    pub fn next_shape(&self) -> (cells: [Point; 4])
        requires
            self@.wf(),
        ensures
            cells@ == template_cells(self@.next_index),
    {
        template(self.next_index)
    }

    /// The template of the preview shape.
    pub fn next_index(&self) -> (index: usize)
        ensures
            index == self@.next_index,
    {
        self.next_index
    }

    /// The template of the active shape.
    pub fn now_index(&self) -> (index: usize)
        ensures
            index == self@.now_index,
    {
        self.now_index
    }

    /// The number of columns of the field.
    pub fn width(&self) -> (width: u32)
        ensures
            width == self@.width,
    {
        self.width
    }

    /// The number of rows of the field.
    pub fn height(&self) -> (height: u32)
        ensures
            height == self@.height,
    {
        self.height
    }

    /// The score.
    pub fn score(&self) -> (score: u32)
        ensures
            score == self@.score,
    {
        self.score
    }

    /// The active shape after a quarter turn.
    fn rotated_shape(&self) -> (shape: Vec<Point>)
        requires
            compact_shape(self@.shape),
        ensures
            shape@ == turned_cells(self@.shape),
    {
        let mut shape: Vec<Point> = Vec::new();
        let mut i: usize = 0;
        while i < self.now_shape.len()
            invariant
                i <= self.now_shape.len(),
                compact_shape(self.now_shape@),
                shape.len() == i,
                forall|j: int| 0 <= j < i ==> #[trigger] shape[j] == turned(self.now_shape[j]),
            decreases self.now_shape.len() - i,
        {
            let p = self.now_shape[i];
            shape.push(Point(p.1, -p.0));
            i += 1;
        }
        assert(shape@ =~= turned_cells(self@.shape));
        shape
    }

    /// Tells whether a move of one cell in the given direction would collide.
    fn move_collides(&self, direction: Direction) -> (hit: bool)
        requires
            self@.wf(),
        ensures
            hit == self@.blocked(direction),
    {
        let step = match direction {
            Direction::Down => Point(0, 1),
            Direction::Left => Point(-1, 0),
            Direction::Right => Point(1, 0),
        };
        let cells = place_at(&self.now_shape, self.offset + step);
        proof {
            lemma_placed_blocked(
                self@.shape,
                cells@,
                self@.settled,
                self@.width,
                self@.height,
                self@.ox + direction.dx(),
                self@.oy + direction.dy(),
            );
        }
        collides(&cells, &self.bottom, self.width, self.height)
    }

    /// Moves the active shape by one cell in the given direction, unless
    /// that would collide.
    fn step(&mut self, direction: Direction)
        requires
            old(self)@.wf(),
        ensures
            final(self)@ == old(self)@.stepped(direction),
            final(self)@.wf(),
    {
        proof {
            lemma_stepped_wf(self@, direction);
        }
        if !self.move_collides(direction) {
            let step = match direction {
                Direction::Down => Point(0, 1),
                Direction::Left => Point(-1, 0),
                Direction::Right => Point(1, 0),
            };
            self.offset = self.offset + step;
        }
    }

    /// Turns the active shape by a quarter about its pivot, if the turned
    /// shape fits where the shape stands. The square is never turned. A turn
    /// that does not fit is dropped without a word.
    pub fn rotate(&mut self)
        requires
            old(self)@.wf(),
        ensures
            final(self)@ == old(self)@.rotated(),
            final(self)@.wf(),
    {
        proof {
            lemma_rotated_wf(self@);
        }
        if self.now_index != SQUARE {
            let turned_shape = self.rotated_shape();
            let cells = place_at(&turned_shape, self.offset);
            proof {
                lemma_placed_blocked(
                    turned_shape@,
                    cells@,
                    self@.settled,
                    self@.width,
                    self@.height,
                    self@.ox,
                    self@.oy,
                );
            }
            if !collides(&cells, &self.bottom, self.width, self.height) {
                self.now_shape = turned_shape;
            }
        }
    }

    /// Lowers the active shape by one row, unless that would collide.
    pub fn down_once(&mut self)
        requires
            old(self)@.wf(),
        ensures
            final(self)@ == old(self)@.stepped(Direction::Down),
            final(self)@.wf(),
    {
        self.step(Direction::Down);
    }

    /// Shifts the active shape by one column to the right, unless that would
    /// collide.
    pub fn right_once(&mut self)
        requires
            old(self)@.wf(),
        ensures
            final(self)@ == old(self)@.stepped(Direction::Right),
            final(self)@.wf(),
    {
        self.step(Direction::Right);
    }

    /// Shifts the active shape by one column to the left, unless that would
    /// collide.
    pub fn left_once(&mut self)
        requires
            old(self)@.wf(),
        ensures
            final(self)@ == old(self)@.stepped(Direction::Left),
            final(self)@.wf(),
    {
        self.step(Direction::Left);
    }

    /// Lowers the active shape as far as it goes. It is not locked: the next
    /// tick does that.
    pub fn down_immediately(&mut self)
        requires
            old(self)@.wf(),
        ensures
            final(self)@ == old(self)@.dropped(),
            final(self)@ == (Board { oy: final(self)@.oy, ..old(self)@ }),
            old(self)@.oy <= final(self)@.oy,
            final(self)@.blocked(Direction::Down),
            final(self)@.wf(),
    {
        proof {
            lemma_dropped_rests(self@);
        }
        while !self.move_collides(Direction::Down)
            invariant
                self@.wf(),
                self@.dropped() == old(self)@.dropped(),
            decreases self@.height + 2 - self@.oy,
        {
            proof {
                lemma_stepped_wf(self@, Direction::Down);
                assert(!cell_blocked(
                    self@.settled,
                    self@.width,
                    self@.height,
                    self@.shape[0].0 + self@.ox,
                    self@.shape[0].1 + self@.oy + 1,
                ));
            }
            self.offset = self.offset + Point(0, 1);
        }
    }

    /// Tells whether the game is over: a settled block lies in the top row
    /// or above it.
    pub fn game_over(&self) -> (over: bool)
        ensures
            over == self@.over(),
    {
        let mut i: usize = 0;
        while i < self.bottom.len()
            invariant
                i <= self.bottom.len(),
                forall|j: int| 0 <= j < i ==> (#[trigger] self.bottom@[j]).1 > 0,
            decreases self.bottom.len() - i,
        {
            if self.bottom[i].1 <= 0 {
                assert(self@.settled[i as int].1 <= 0);
                return true;
            }
            i += 1;
        }
        false
    }

    /// Locks the active shape: its cells join the settled blocks.
    fn push_bottom(&mut self)
        requires
            old(self)@.wf(),
        ensures
            final(self)@ == (Board { settled: old(self)@.locked(), ..old(self)@ }),
    {
        let cells = place_at(&self.now_shape, self.offset);
        assert(cells@ =~= self@.cells());
        let mut i: usize = 0;
        while i < cells.len()
            invariant
                i <= cells.len(),
                cells@ == old(self)@.cells(),
                self@ == (Board { settled: self@.settled, ..old(self)@ }),
                self@.settled =~= old(self)@.settled + cells@.take(i as int),
            decreases cells.len() - i,
        {
            self.bottom.push(cells[i]);
            i += 1;
        }
        assert(cells@.take(cells.len() as int) =~= cells@);
    }

    /// Adds the points for clearing `lines_num` rows at once.
    fn add_score(&mut self, lines_num: usize)
        requires
            lines_num <= 4,
            old(self)@.score + line_score(lines_num as int) <= u32::MAX,
        ensures
            final(self)@ == (Board {
                score: old(self)@.score + line_score(lines_num as int),
                ..old(self)@
            }),
    {
        self.score = self.score + points_for(lines_num);
    }

    /// Clears the full rows of the field and scores them.
    fn del_full_lines(&mut self)
        requires
            full_count(old(self)@.settled, old(self)@.width, 0, old(self)@.height) <= 4,
            old(self)@.score + line_score(
                full_count(old(self)@.settled, old(self)@.width, 0, old(self)@.height),
            ) <= u32::MAX,
        ensures
            final(self)@ == (Board {
                settled: cleared(old(self)@.settled, old(self)@.width, old(self)@.height),
                score: old(self)@.score + line_score(
                    full_count(old(self)@.settled, old(self)@.width, 0, old(self)@.height),
                ),
                ..old(self)@
            }),
    {
        let (field, lines_num) = clear_lines(&self.bottom, self.width, self.height);
        self.add_score(lines_num);
        self.bottom = field;
    }

    /// Makes the preview the active shape, at the spawn position, and
    /// `drawn` the preview.
    fn update_shape(&mut self, drawn: usize)
        requires
            old(self)@.next_index < 7,
        ensures
            final(self)@ == (Board {
                shape: template_cells(old(self)@.next_index),
                ox: old(self)@.width / 2,
                oy: 0,
                now_index: old(self)@.next_index,
                next_index: drawn as int,
                ..old(self)@
            }),
    {
        self.now_shape = template_vec(self.next_index);
        self.offset = Point((self.width / 2) as i64, 0);
        self.now_index = self.next_index;
        self.next_index = drawn;
    }

    /// Tells whether the next tick locks the active shape.
    fn will_lock(&self) -> (locking: bool)
        requires
            self@.wf(),
        ensures
            locking == (!self@.over() && self@.blocked(Direction::Down)),
    {
        !self.game_over() && self.move_collides(Direction::Down)
    }

    /// The settled field as it would be with the active shape locked into it.
    fn locked_field(&self) -> (field: Vec<Point>)
        requires
            self@.wf(),
        ensures
            field@ == self@.locked(),
    {
        let cells = place_at(&self.now_shape, self.offset);
        assert(cells@ =~= self@.cells());
        let mut field: Vec<Point> = Vec::new();
        let mut i: usize = 0;
        while i < self.bottom.len()
            invariant
                i <= self.bottom.len(),
                field@ =~= self.bottom@.take(i as int),
            decreases self.bottom.len() - i,
        {
            field.push(self.bottom[i]);
            i += 1;
        }
        assert(self.bottom@.take(self.bottom.len() as int) =~= self.bottom@);
        let mut k: usize = 0;
        while k < cells.len()
            invariant
                k <= cells.len(),
                field@ =~= self.bottom@ + cells@.take(k as int),
            decreases cells.len() - k,
        {
            field.push(cells[k]);
            k += 1;
        }
        assert(cells@.take(cells.len() as int) =~= cells@);
        field
    }

    /// Tells whether the next tick can be made: the score that it leaves
    /// fits the score's type.
    pub fn can_move_on(&self) -> (ready: bool)
        requires
            self@.wf(),
        ensures
            ready == (self@.score + self@.gain() <= u32::MAX),
    {
        proof {
            lemma_lines_bound(self@);
        }
        if self.score <= u32::MAX - 800 || !self.will_lock() {
            return true;
        }
        let field = self.locked_field();
        let (_, lines) = clear_lines(&field, self.width, self.height);
        self.score <= u32::MAX - points_for(lines)
    }

    /// One tick, with `drawn` as the preview of the shape after next. A
    /// finished game stays as it is. Otherwise the active shape falls by one
    /// row if it can; if it cannot, it is locked, the full rows are cleared
    /// and scored, and the preview becomes the active shape. The tick
    /// reports the end of the game exactly if a settled block then lies in
    /// the top row or above it.
    pub fn move_on_with(&mut self, drawn: usize) -> (outcome: Result<(), &'static str>)
        requires
            old(self)@.wf(),
            old(self)@.score + old(self)@.gain() <= u32::MAX,
            drawn < SHAPE_COUNT,
        ensures
            final(self)@ == old(self)@.tick(drawn as int),
            final(self)@.wf(),
            outcome is Err <==> final(self)@.over(),
            outcome matches Err(message) ==> message == GAME_OVER,
    {
        if self.game_over() {
            return Err(GAME_OVER);
        }
        if self.move_collides(Direction::Down) {
            proof {
                lemma_lines_bound(self@);
                lemma_respawned_wf(self@, drawn as int);
            }
            self.push_bottom();
            self.del_full_lines();
            self.update_shape(drawn);
            if self.game_over() {
                Err(GAME_OVER)
            } else {
                Ok(())
            }
        } else {
            self.down_once();
            Ok(())
        }
    }

    /// One tick, with a preview drawn at random where the tick spawns.
    pub fn move_on(&mut self) -> (outcome: Result<(), &'static str>)
        requires
            old(self)@.wf(),
            old(self)@.score + old(self)@.gain() <= u32::MAX,
        ensures
            final(self)@ == old(self)@.tick(final(self)@.next_index),
            final(self)@.wf(),
            outcome is Err <==> final(self)@.over(),
            outcome matches Err(message) ==> message == GAME_OVER,
    {
        let drawn = if self.will_lock() {
            rand_index()
        } else {
            self.next_index
        };
        self.move_on_with(drawn)
    }
}

} // verus!
