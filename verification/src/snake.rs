//! The snake: it moves one cell per tick, grows when it eats the egg, and
//! dies when it runs into a wall or into its own tail.

pub use crate::point::Point;
use crate::chance::draw_between;
use crate::point::contains_point;
use vstd::prelude::*;

verus! {

/// The directions in which the snake heads.
#[derive(Debug, Clone, Copy, PartialEq, Eq, Structural)]
pub enum Direction {
    Left,
    Right,
    Up,
    Down,
}

impl Direction {
    /// The step that the head makes in this direction.
    pub open spec fn step(self) -> Point {
        match self {
            Direction::Down => Point(0, 1),
            Direction::Up => Point(0, -1i64),
            Direction::Left => Point(-1i64, 0),
            Direction::Right => Point(1, 0),
        }
    }
}

/// What a tick reports when the head has run into the tail.
pub const HIT_TAIL: &'static str = "HitTail...";

/// What a tick reports when the head has left the field.
pub const HIT_WALL: &'static str = "HitWall...";

/// The snake and its field.
#[derive(Debug)]
pub struct Snake {
    pub head: Point,
    pub body: Vec<Point>,
    pub egg: Point,
    pub direction: Direction,
    pub width: u32,
    pub height: u32,
}

/// The snake as plain mathematics.
pub struct Course {
    /// The cell of the head.
    pub head: Point,
    /// The cells of the body, the tail's end first.
    pub body: Seq<Point>,
    /// The cell of the egg.
    pub egg: Point,
    /// Where the snake is heading.
    pub direction: Direction,
    /// The number of columns of the field.
    pub width: int,
    /// The number of rows of the field.
    pub height: int,
}

impl Course {
    /// The start of a game: the head at `(10, 10)` heading down, no body yet,
    /// and the egg in the middle of the field.
    pub open spec fn start(width: int, height: int) -> Course {
        Course {
            head: Point(10, 10),
            body: Seq::empty(),
            egg: Point((width / 2) as i64, (height / 2) as i64),
            direction: Direction::Down,
            width,
            height,
        }
    }

    /// The head can make its next step within the coordinate type.
    pub open spec fn can_advance(self) -> bool {
        self.head.can_add(self.direction.step())
    }

    /// The cell that the head enters next.
    pub open spec fn ahead(self) -> Point {
        self.head.plus(self.direction.step())
    }

    /// The next step eats the egg.
    pub open spec fn eats(self) -> bool {
        self.ahead() == self.egg
    }

    /// The cell `p` lies in the field and the snake is not on it.
    pub open spec fn free(self, p: Point) -> bool {
        &&& 0 <= p.0 < self.width
        &&& 0 <= p.1 < self.height
        &&& p != self.head
        &&& !self.body.contains(p)
    }

    /// The snake after eating the egg: it grows by its old head, which
    /// becomes body, and a new egg lies at `new_egg`.
    pub open spec fn grown(self, new_egg: Point) -> Course {
        Course { head: self.egg, body: self.body.push(self.head), egg: new_egg, ..self }
    }

    /// The snake after a plain step: the head moves on, the old head becomes
    /// body, and the tail's end is given up.
    pub open spec fn crawled(self) -> Course {
        Course { head: self.ahead(), body: self.body.push(self.head).remove(0), ..self }
    }

    /// The snake after one tick, where `new_egg` is laid if the egg is eaten.
    pub open spec fn advanced(self, new_egg: Point) -> Course {
        if self.eats() {
            self.grown(new_egg)
        } else {
            self.crawled()
        }
    }

    /// The head lies on the body of a snake with more than three body cells.
    pub open spec fn tail_hit(self) -> bool {
        self.body.len() > 3 && self.body.contains(self.head)
    }

    /// The head lies outside the field.
    pub open spec fn wall_hit(self) -> bool {
        self.head.0 < 0 || self.head.1 < 0 || self.head.0 >= self.width || self.head.1
            >= self.height
    }

    /// What a tick reports of the snake it leaves: a hit tail first, then a
    /// hit wall.
    pub open spec fn verdict(self) -> Result<(), &'static str> {
        if self.tail_hit() {
            Err(HIT_TAIL)
        } else if self.wall_hit() {
            Err(HIT_WALL)
        } else {
            Ok(())
        }
    }
}

impl View for Snake {
    type V = Course;

    open spec fn view(&self) -> Course {
        Course {
            head: self.head,
            body: self.body@,
            egg: self.egg,
            direction: self.direction,
            width: self.width as int,
            height: self.height as int,
        }
    }
}

impl Snake {
    /// Starts a game on a field of `width` columns and `height` rows.
    pub fn new_with_bounds(width: u32, height: u32) -> (snake: Snake)
        ensures
            snake@ == Course::start(width as int, height as int),
    {
        Snake {
            head: Point(10, 10),
            body: Vec::new(),
            egg: Point((width as i64) / 2, (height as i64) / 2),
            direction: Direction::Down,
            width,
            height,
        }
    }

    /// One tick, where `new_egg` is laid if the snake eats the egg. The
    /// snake moves on by one cell, or grows by one cell onto the egg. The
    /// tick then reports whether the head has hit the tail or a wall.
    pub fn move_on_with(&mut self, new_egg: Point) -> (outcome: Result<(), &'static str>)
        requires
            old(self)@.can_advance(),
        ensures
            final(self)@ == old(self)@.advanced(new_egg),
            outcome == final(self)@.verdict(),
    {
        if self.next_head() == self.egg {
            self.grow_onto(new_egg);
        } else {
            self.move_once();
        }
        self.verdict()
    }

    /// One tick. Where the snake eats the egg, the new egg is laid on a cell
    /// drawn at random among the cells of the field that the grown snake
    /// leaves free.
    pub fn move_on(&mut self) -> (outcome: Result<(), &'static str>)
        requires
            old(self)@.can_advance(),
            old(self)@.eats() ==> exists|p: Point| old(self)@.grown(old(self)@.egg).free(p),
        ensures
            final(self)@ == old(self)@.advanced(final(self)@.egg),
            old(self)@.eats() ==> final(self)@.free(final(self)@.egg),
            outcome == final(self)@.verdict(),
    {
        if self.next_head() == self.egg {
            self.grow_once();
        } else {
            self.move_once();
        }
        self.verdict()
    }

    /// Reports a hit tail, a hit wall, or neither.
    fn verdict(&self) -> (outcome: Result<(), &'static str>)
        ensures
            outcome == self@.verdict(),
    {
        if self.hit_tail() {
            Err(HIT_TAIL)
        } else if self.hit_wall() {
            Err(HIT_WALL)
        } else {
            Ok(())
        }
    }

    /// Tells whether the head lies on the body of a snake with more than
    /// three body cells.
    fn hit_tail(&self) -> (hit: bool)
        ensures
            hit == self@.tail_hit(),
    {
        self.body.len() > 3 && contains_point(&self.body, self.head)
    }

    /// Tells whether the head lies outside the field.
    fn hit_wall(&self) -> (hit: bool)
        ensures
            hit == self@.wall_hit(),
    {
        let Point(x, y) = self.head;
        x < 0 || y < 0 || x >= (self.width as i64) || y >= (self.height as i64)
    }

    /// The cell that the head enters next.
    fn next_head(&self) -> (ahead: Point)
        requires
            self@.can_advance(),
        ensures
            ahead == self@.ahead(),
    {
        match self.direction {
            Direction::Down => self.head + Point(0, 1),
            Direction::Up => self.head + Point(0, -1),
            Direction::Left => self.head + Point(-1, 0),
            Direction::Right => self.head + Point(1, 0),
        }
    }

    /// The cells of the field that the snake leaves free, row by row.
    fn free_cells(&self) -> (cells: Vec<Point>)
        ensures
            forall|p: Point| cells@.contains(p) <==> self@.free(p),
    {
        let mut cells: Vec<Point> = Vec::new();
        let mut y: u32 = 0;
        while y < self.height
            invariant
                y <= self.height,
                forall|p: Point| cells@.contains(p) <==> (self@.free(p) && p.1 < y),
            decreases self.height - y,
        {
            let mut x: u32 = 0;
            while x < self.width
                invariant
                    x <= self.width,
                    y < self.height,
                    forall|p: Point|
                        cells@.contains(p) <==> (self@.free(p) && (p.1 < y || (p.1 == y && p.0
                            < x))),
                decreases self.width - x,
            {
                let p = Point(x as i64, y as i64);
                if p != self.head && !contains_point(&self.body, p) {
                    let ghost before = cells@;
                    cells.push(p);
                    proof {
                        assert forall|q: Point| cells@.contains(q) <==> (self@.free(q) && (q.1 < y
                            || (q.1 == y && q.0 < x + 1))) by {
                            vstd::seq_lib::lemma_seq_contains_after_push(before, p, q);
                        }
                    }
                }
                x += 1;
            }
            y += 1;
        }
        cells
    }

    /// Tells whether the snake, once it has eaten the egg, leaves a cell of
    /// the field free for the next egg.
    fn has_room_to_grow(&self) -> (room: bool)
        ensures
            room == exists|p: Point| self@.grown(self@.egg).free(p),
    {
        let ghost grown = self@.grown(self@.egg);
        let mut y: u32 = 0;
        while y < self.height
            invariant
                y <= self.height,
                grown == self@.grown(self@.egg),
                forall|p: Point| !(grown.free(p) && p.1 < y),
            decreases self.height - y,
        {
            let mut x: u32 = 0;
            while x < self.width
                invariant
                    x <= self.width,
                    y < self.height,
                    grown == self@.grown(self@.egg),
                    forall|p: Point| !(grown.free(p) && (p.1 < y || (p.1 == y && p.0 < x))),
                decreases self.width - x,
            {
                let p = Point(x as i64, y as i64);
                proof {
                    vstd::seq_lib::lemma_seq_contains_after_push(self@.body, self@.head, p);
                }
                if p != self.egg && p != self.head && !contains_point(&self.body, p) {
                    assert(grown.free(p));
                    return true;
                }
                x += 1;
            }
            y += 1;
        }
        false
    }

    /// Tells whether the next tick can be made: the head's next step stays
    /// within the coordinate type, and, where that step eats the egg, the
    /// grown snake leaves a cell free for the next egg.
    pub fn can_move_on(&self) -> (ready: bool)
        ensures
            ready == (self@.can_advance() && (self@.eats() ==> exists|p: Point|
                self@.grown(self@.egg).free(p))),
    {
        let fits = match self.direction {
            Direction::Down => self.head.1 < i64::MAX,
            Direction::Up => self.head.1 > i64::MIN,
            Direction::Left => self.head.0 > i64::MIN,
            Direction::Right => self.head.0 < i64::MAX,
        };
        if !fits {
            return false;
        }
        if self.next_head() == self.egg {
            self.has_room_to_grow()
        } else {
            true
        }
    }

    /// Draws a cell for the next egg among the free cells of the field.
    fn next_egg(&self) -> (egg: Point)
        requires
            exists|p: Point| self@.free(p),
        ensures
            self@.free(egg),
    {
        let cells = self.free_cells();
        proof {
            let p = choose|p: Point| self@.free(p);
            assert(cells@.contains(p));
        }
        let k = draw_between(0, cells.len());
        proof {
            cells@.lemma_index_contains(k as int);
        }
        cells[k]
    }

    /// Grows onto the egg, and lays the next egg at `new_egg`.
    fn grow_onto(&mut self, new_egg: Point)
        ensures
            final(self)@ == old(self)@.grown(new_egg),
    {
        self.body.push(self.head);
        self.head = self.egg;
        self.egg = new_egg;
    }

    /// Grows onto the egg, and lays the next egg on a free cell.
    fn grow_once(&mut self)
        requires
            exists|p: Point| old(self)@.grown(old(self)@.egg).free(p),
        ensures
            final(self)@ == old(self)@.grown(final(self)@.egg),
            final(self)@.free(final(self)@.egg),
    {
        self.body.push(self.head);
        self.head = self.egg;
        self.egg = self.next_egg();
    }

    /// Moves on by one cell.
    fn move_once(&mut self)
        requires
            old(self)@.can_advance(),
        ensures
            final(self)@ == old(self)@.crawled(),
    {
        self.body.push(self.head);
        self.head = self.next_head();
        self.body.remove(0);
    }
}

} // verus!
