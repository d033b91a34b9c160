//! The shooter: a row of invaders marches back and forth and drops eggs, the
//! player's ship moves along the bottom row and shoots bullets upward.

pub use crate::point::Point;
use crate::chance::draw_between;
use crate::point::contains_point;
use vstd::prelude::*;

verus! {

/// The directions in which the invaders march.
#[derive(Debug, Clone, Copy, PartialEq, Eq, Structural)]
pub enum BodyDirection {
    Left,
    Right,
}

/// What a tick reports when no invader is left.
pub const WIN: &'static str = "You win!!!";

/// What a tick reports when the ship has used up its bullets.
pub const OUT_OF_BULLETS: &'static str = "You lose!!! No bullets left...";

/// What a tick reports when an egg has hit the ship.
pub const SHOT_DOWN: &'static str = "You lose!!! You were shoot...";

/// The number of bullets that a ship may shoot in one game.
pub const MAX_BULLETS: u32 = 200;

/// The game: ship, invaders, bullets and eggs, and the field.
#[derive(Debug)]
pub struct SpaceInvaders {
    pub head: Point,
    pub body: Vec<Point>,
    pub bullets: Vec<Point>,
    pub eggs: Vec<Point>,
    pub body_direction: BodyDirection,
    pub width: u32,
    pub height: u32,
    max_bullets: u32,
    count_bullets: u32,
}

/// The test that a cell is none of `cells`.
pub open spec fn apart_from(cells: Seq<Point>) -> spec_fn(Point) -> bool {
    |p: Point| !cells.contains(p)
}

/// The test that an egg passes when bullets strike: no bullet is on it, and
/// none is in the cell below it.
pub open spec fn egg_survives(bullets: Seq<Point>) -> spec_fn(Point) -> bool {
    |p: Point| !(bullets.contains(p) || bullets.contains(Point(p.0, (p.1 + 1) as i64)))
}

/// The test that a bullet passes when it strikes eggs: no egg is on it, and
/// none is in the cell above it.
pub open spec fn bullet_survives(eggs: Seq<Point>) -> spec_fn(Point) -> bool {
    |p: Point| !(eggs.contains(p) || eggs.contains(Point(p.0, (p.1 - 1) as i64)))
}

/// The test that a bullet has not left the field through the top.
pub open spec fn in_flight() -> spec_fn(Point) -> bool {
    |p: Point| p.1 >= 0
}

/// The test that an egg has not fallen through the floor of the field.
pub open spec fn above_floor(height: int) -> spec_fn(Point) -> bool {
    |p: Point| p.1 < height
}

/// The move of a cell by `by`.
pub open spec fn shifted(by: Point) -> spec_fn(Point) -> Point {
    |p: Point| p.plus(by)
}

/// The game as plain mathematics.
pub struct Battle {
    /// The cell of the ship.
    pub head: Point,
    /// The cells of the invaders.
    pub body: Seq<Point>,
    /// The cells of the bullets.
    pub bullets: Seq<Point>,
    /// The cells of the eggs.
    pub eggs: Seq<Point>,
    /// Where the invaders march.
    pub body_direction: BodyDirection,
    /// The number of columns of the field.
    pub width: int,
    /// The number of rows of the field.
    pub height: int,
    /// The number of bullets that may be shot in one game.
    pub shot_limit: int,
    /// The number of bullets shot so far.
    pub shots: int,
}

impl Battle {
    /// The start of a game: the ship in the middle of the bottom row, ten
    /// invaders in the top row from column 10 on, marching right.
    pub open spec fn start(width: int, height: int) -> Battle {
        Battle {
            head: Point((width / 2) as i64, (height - 1) as i64),
            body: Seq::new(10, |i: int| Point((10 + i) as i64, 0)),
            bullets: Seq::empty(),
            eggs: Seq::empty(),
            body_direction: BodyDirection::Right,
            width,
            height,
            shot_limit: 200,
            shots: 0,
        }
    }

    /// The ship one column further left, unless it stands in column 0 or
    /// left of it.
    pub open spec fn steered_left(self) -> Battle {
        if self.head.0 > 0 {
            Battle { head: Point((self.head.0 - 1) as i64, self.head.1), ..self }
        } else {
            self
        }
    }

    /// The ship one column further right, unless it stands in the last
    /// column or right of it.
    pub open spec fn steered_right(self) -> Battle {
        if self.head.0 < self.width - 1 {
            Battle { head: Point((self.head.0 + 1) as i64, self.head.1), ..self }
        } else {
            self
        }
    }

    /// The cell above the ship, where a bullet starts.
    pub open spec fn muzzle(self) -> Point {
        Point(self.head.0, (self.head.1 - 1) as i64)
    }

    /// A shot counts: no bullet is in the cell above the ship yet.
    pub open spec fn muzzle_free(self) -> bool {
        !self.bullets.contains(self.muzzle())
    }

    /// The game after a shot: a bullet in the cell above the ship, unless
    /// one is there already. Only a bullet that is shot counts.
    pub open spec fn shot(self) -> Battle {
        if self.muzzle_free() {
            Battle { bullets: self.bullets.push(self.muzzle()), shots: self.shots + 1, ..self }
        } else {
            self
        }
    }

    /// The game with one more egg, in the cell below the invader `index`.
    pub open spec fn laid(self, index: int) -> Battle {
        Battle { eggs: self.eggs.push(self.body[index].plus(Point(0, 1))), ..self }
    }

    /// The game after the bullets have struck: the invaders that a bullet
    /// is on are gone; so are the eggs that a bullet is on or just below,
    /// and the bullets that were on such an egg or just below one.
    pub open spec fn struck(self) -> Battle {
        Battle {
            body: self.body.filter(apart_from(self.bullets)),
            eggs: self.eggs.filter(egg_survives(self.bullets)),
            bullets: self.bullets.filter(bullet_survives(self.eggs)),
            ..self
        }
    }

    /// Some invader stands in the column `x`.
    pub open spec fn invader_in_column(self, x: int) -> bool {
        exists|i: int| 0 <= i < self.body.len() && (#[trigger] self.body[i]).0 == x
    }

    /// The game after the invaders have marched one column in their
    /// direction. They turn round for the next step once one of them has set
    /// out from the last column but one, or from column 1.
    pub open spec fn marched_once(self) -> Battle {
        match self.body_direction {
            BodyDirection::Right => Battle {
                body: self.body.map_values(shifted(Point(1, 0))),
                body_direction: if self.invader_in_column(self.width - 2) {
                    BodyDirection::Left
                } else {
                    BodyDirection::Right
                },
                ..self
            },
            BodyDirection::Left => Battle {
                body: self.body.map_values(shifted(Point(-1i64, 0))),
                body_direction: if self.invader_in_column(1) {
                    BodyDirection::Right
                } else {
                    BodyDirection::Left
                },
                ..self
            },
        }
    }

    /// The game after the invaders have marched `steps` columns.
    pub open spec fn marched(self, steps: nat) -> Battle
        decreases steps,
    {
        if steps == 0 {
            self
        } else {
            self.marched_once().marched((steps - 1) as nat)
        }
    }

    /// The game after the bullets have flown: those above the field are
    /// gone, the others are two rows further up.
    pub open spec fn flown(self) -> Battle {
        Battle {
            bullets: self.bullets.filter(in_flight()).map_values(shifted(Point(0, -2i64))),
            ..self
        }
    }

    /// The game after the eggs have fallen: those below the field are gone,
    /// the others are one row further down.
    pub open spec fn fallen(self) -> Battle {
        Battle {
            eggs: self.eggs.filter(above_floor(self.height)).map_values(shifted(Point(0, 1))),
            ..self
        }
    }

    /// The game after one tick in which the invaders march `steps` columns:
    /// the bullets strike, the invaders march, the bullets fly, the eggs
    /// fall.
    pub open spec fn advanced(self, steps: nat) -> Battle {
        self.struck().marched(steps).flown().fallen()
    }

    /// What a tick reports of the game it leaves: a win when no invader is
    /// left, else a loss when the bullets are used up, else a loss when an
    /// egg is on the ship.
    pub open spec fn verdict(self) -> Result<(), &'static str> {
        if self.body.len() == 0 {
            Err(WIN)
        } else if self.shots >= self.shot_limit {
            Err(OUT_OF_BULLETS)
        } else if self.eggs.contains(self.head) {
            Err(SHOT_DOWN)
        } else {
            Ok(())
        }
    }

    /// The coordinates leave the room that one tick needs: two columns to
    /// either side of every invader, a row below every egg and a row above
    /// every bullet.
    pub open spec fn can_advance(self) -> bool {
        &&& forall|i: int|
            0 <= i < self.body.len() ==> i64::MIN + 2 <= (#[trigger] self.body[i]).0 <= i64::MAX
                - 2
        &&& forall|i: int| 0 <= i < self.eggs.len() ==> (#[trigger] self.eggs[i]).1 < i64::MAX
        &&& forall|i: int|
            0 <= i < self.bullets.len() ==> (#[trigger] self.bullets[i]).1 > i64::MIN
    }
}

impl View for SpaceInvaders {
    type V = Battle;

    closed spec fn view(&self) -> Battle {
        Battle {
            head: self.head,
            body: self.body@,
            bullets: self.bullets@,
            eggs: self.eggs@,
            body_direction: self.body_direction,
            width: self.width as int,
            height: self.height as int,
            shot_limit: self.max_bullets as int,
            shots: self.count_bullets as int,
        }
    }
}

/// Moves every cell by `by`.
fn shift_all(cells: &Vec<Point>, by: Point) -> (moved: Vec<Point>)
    requires
        forall|i: int| 0 <= i < cells.len() ==> (#[trigger] cells[i]).can_add(by),
    ensures
        moved@ == cells@.map_values(shifted(by)),
{
    let mut moved: Vec<Point> = Vec::new();
    let mut i: usize = 0;
    while i < cells.len()
        invariant
            i <= cells.len(),
            forall|j: int| 0 <= j < cells.len() ==> (#[trigger] cells[j]).can_add(by),
            moved.len() == i,
            forall|j: int| 0 <= j < i ==> #[trigger] moved[j] == cells[j].plus(by),
        decreases cells.len() - i,
    {
        moved.push(cells[i] + by);
        i += 1;
    }
    assert(moved@ =~= cells@.map_values(shifted(by)));
    moved
}

/// Keeps the cells that are none of `others`.
fn keep_apart(cells: &Vec<Point>, others: &Vec<Point>) -> (kept: Vec<Point>)
    ensures
        kept@ == cells@.filter(apart_from(others@)),
{
    let ghost test = apart_from(others@);
    let mut kept: Vec<Point> = Vec::new();
    let mut i: usize = 0;
    while i < cells.len()
        invariant
            i <= cells.len(),
            test == apart_from(others@),
            kept@ == cells@.take(i as int).filter(test),
        decreases cells.len() - i,
    {
        let p = cells[i];
        proof {
            cells@.lemma_take_succ_push(i as int);
            cells@.take(i as int).lemma_filter_push(p, test);
        }
        if !contains_point(others, p) {
            kept.push(p);
        }
        i += 1;
    }
    assert(cells@.take(cells.len() as int) =~= cells@);
    kept
}

/// Keeps the eggs that no bullet is on or just below.
fn keep_eggs(eggs: &Vec<Point>, bullets: &Vec<Point>) -> (kept: Vec<Point>)
    requires
        forall|i: int| 0 <= i < eggs.len() ==> (#[trigger] eggs[i]).1 < i64::MAX,
    ensures
        kept@ == eggs@.filter(egg_survives(bullets@)),
{
    let ghost test = egg_survives(bullets@);
    let mut kept: Vec<Point> = Vec::new();
    let mut i: usize = 0;
    while i < eggs.len()
        invariant
            i <= eggs.len(),
            forall|j: int| 0 <= j < eggs.len() ==> (#[trigger] eggs[j]).1 < i64::MAX,
            test == egg_survives(bullets@),
            kept@ == eggs@.take(i as int).filter(test),
        decreases eggs.len() - i,
    {
        let p = eggs[i];
        proof {
            eggs@.lemma_take_succ_push(i as int);
            eggs@.take(i as int).lemma_filter_push(p, test);
        }
        if !(contains_point(bullets, p) || contains_point(bullets, Point(p.0, p.1 + 1))) {
            kept.push(p);
        }
        i += 1;
    }
    assert(eggs@.take(eggs.len() as int) =~= eggs@);
    kept
}

/// Keeps the bullets that are on no egg and just below none.
fn keep_bullets(bullets: &Vec<Point>, eggs: &Vec<Point>) -> (kept: Vec<Point>)
    requires
        forall|i: int| 0 <= i < bullets.len() ==> (#[trigger] bullets[i]).1 > i64::MIN,
    ensures
        kept@ == bullets@.filter(bullet_survives(eggs@)),
{
    let ghost test = bullet_survives(eggs@);
    let mut kept: Vec<Point> = Vec::new();
    let mut i: usize = 0;
    while i < bullets.len()
        invariant
            i <= bullets.len(),
            forall|j: int| 0 <= j < bullets.len() ==> (#[trigger] bullets[j]).1 > i64::MIN,
            test == bullet_survives(eggs@),
            kept@ == bullets@.take(i as int).filter(test),
        decreases bullets.len() - i,
    {
        let p = bullets[i];
        proof {
            bullets@.lemma_take_succ_push(i as int);
            bullets@.take(i as int).lemma_filter_push(p, test);
        }
        if !(contains_point(eggs, p) || contains_point(eggs, Point(p.0, p.1 - 1))) {
            kept.push(p);
        }
        i += 1;
    }
    assert(bullets@.take(bullets.len() as int) =~= bullets@);
    kept
}

/// Tells whether one of `cells` stands in the column `x`.
fn any_in_column(cells: &Vec<Point>, x: i64) -> (found: bool)
    ensures
        found == exists|i: int| 0 <= i < cells.len() && (#[trigger] cells[i]).0 == x,
{
    let mut i: usize = 0;
    while i < cells.len()
        invariant
            i <= cells.len(),
            forall|j: int| 0 <= j < i ==> (#[trigger] cells[j]).0 != x,
        decreases cells.len() - i,
    {
        if cells[i].0 == x {
            return true;
        }
        i += 1;
    }
    false
}

impl SpaceInvaders {
    /// Starts a game on a field of `width` columns and `height` rows.
    pub fn new_with_bounds(width: u32, height: u32) -> (game: SpaceInvaders)
        requires
            height >= 1,
        ensures
            game@ == Battle::start(width as int, height as int),
    {
        let mut body: Vec<Point> = Vec::new();
        let mut i: i64 = 10;
        while i < 20
            invariant
                10 <= i <= 20,
                body.len() == i - 10,
                forall|j: int| 0 <= j < body.len() ==> #[trigger] body[j] == Point((10 + j) as i64, 0),
            decreases 20 - i,
        {
            body.push(Point(i, 0));
            i += 1;
        }
        let game = SpaceInvaders {
            head: Point((width / 2) as i64, (height - 1) as i64),
            body,
            bullets: Vec::new(),
            eggs: Vec::new(),
            body_direction: BodyDirection::Right,
            width,
            height,
            max_bullets: MAX_BULLETS,
            count_bullets: 0,
        };
        assert(game@.body =~= Battle::start(width as int, height as int).body);
        game
    }

    /// Lets the invader `index` drop an egg into the cell below it.
    pub fn gen_egg_from(&mut self, index: usize)
        requires
            index < old(self)@.body.len(),
            old(self)@.body[index as int].1 < i64::MAX,
        ensures
            final(self)@ == old(self)@.laid(index as int),
    {
        let p = self.body[index];
        self.eggs.push(p + Point(0, 1));
    }

    /// Lets an invader drawn at random drop an egg into the cell below it.
    pub fn gen_egg(&mut self)
        requires
            old(self)@.body.len() > 0,
            forall|i: int|
                0 <= i < old(self)@.body.len() ==> (#[trigger] old(self)@.body[i]).1 < i64::MAX,
        ensures
            exists|index: int|
                0 <= index < old(self)@.body.len() && final(self)@ == old(self)@.laid(index),
    {
        let index = draw_between(0, self.body.len());
        self.gen_egg_from(index);
    }

    /// Tells whether the next tick can be made: the coordinates leave the
    /// room that it needs.
    pub fn can_move_on(&self) -> (ready: bool)
        ensures
            ready == self@.can_advance(),
    {
        let mut i: usize = 0;
        while i < self.body.len()
            invariant
                i <= self.body.len(),
                forall|j: int|
                    0 <= j < i ==> i64::MIN + 2 <= (#[trigger] self@.body[j]).0 <= i64::MAX - 2,
            decreases self.body.len() - i,
        {
            let x = self.body[i].0;
            if x < i64::MIN + 2 || x > i64::MAX - 2 {
                assert(!(i64::MIN + 2 <= self@.body[i as int].0 <= i64::MAX - 2));
                return false;
            }
            i += 1;
        }
        let mut i: usize = 0;
        while i < self.eggs.len()
            invariant
                i <= self.eggs.len(),
                forall|j: int| 0 <= j < i ==> (#[trigger] self@.eggs[j]).1 < i64::MAX,
            decreases self.eggs.len() - i,
        {
            if self.eggs[i].1 == i64::MAX {
                assert(!(self@.eggs[i as int].1 < i64::MAX));
                return false;
            }
            i += 1;
        }
        let mut i: usize = 0;
        while i < self.bullets.len()
            invariant
                i <= self.bullets.len(),
                forall|j: int| 0 <= j < i ==> (#[trigger] self@.bullets[j]).1 > i64::MIN,
            decreases self.bullets.len() - i,
        {
            if self.bullets[i].1 == i64::MIN {
                assert(!(self@.bullets[i as int].1 > i64::MIN));
                return false;
            }
            i += 1;
        }
        true
    }

    /// Tells whether a shot can be made: the cell above the ship exists in
    /// the coordinate type, and the count of shots can still grow.
    pub fn can_shoot(&self) -> (ready: bool)
        ensures
            ready == (self@.head.1 > i64::MIN && self@.shots < u32::MAX),
    {
        self.head.1 > i64::MIN && self.count_bullets < u32::MAX
    }

    /// Tells whether an invader can drop an egg: there is an invader, and
    /// below each of them the coordinate type has a row.
    pub fn can_gen_egg(&self) -> (ready: bool)
        ensures
            ready == (self@.body.len() > 0 && forall|i: int|
                0 <= i < self@.body.len() ==> (#[trigger] self@.body[i]).1 < i64::MAX),
    {
        if self.body.len() == 0 {
            return false;
        }
        let mut i: usize = 0;
        while i < self.body.len()
            invariant
                i <= self.body.len(),
                forall|j: int| 0 <= j < i ==> (#[trigger] self@.body[j]).1 < i64::MAX,
            decreases self.body.len() - i,
        {
            if self.body[i].1 == i64::MAX {
                assert(!(self@.body[i as int].1 < i64::MAX));
                return false;
            }
            i += 1;
        }
        true
    }

    /// One tick in which the invaders march `steps` columns. The bullets
    /// strike, the invaders march, the bullets fly and the eggs fall; then
    /// the tick reports a win, a loss, or neither.
    pub fn move_on_with(&mut self, steps: usize) -> (outcome: Result<(), &'static str>)
        requires
            old(self)@.can_advance(),
            steps <= 2,
        ensures
            final(self)@ == old(self)@.advanced(steps as nat),
            outcome == final(self)@.verdict(),
    {
        self.del_collides();
        proof {
            let before = old(self)@.body;
            let after = self@.body;
            assert forall|i: int| 0 <= i < after.len() implies i64::MIN + 2 <= (#[trigger] after[i]).0
                <= i64::MAX - 2 by {
                after.lemma_index_contains(i);
                before.lemma_filter_contains_rev(apart_from(old(self)@.bullets), after[i]);
                let j = choose|j: int| 0 <= j < before.len() && before[j] == after[i];
                assert(i64::MIN + 2 <= before[j].0 <= i64::MAX - 2);
            }
        }
        self.update_body(steps);
        self.update_bullets();
        self.update_eggs();
        if self.body.len() == 0 {
            Err(WIN)
        } else if self.count_bullets >= self.max_bullets {
            Err(OUT_OF_BULLETS)
        } else if contains_point(&self.eggs, self.head) {
            Err(SHOT_DOWN)
        } else {
            Ok(())
        }
    }

    /// One tick, in which the invaders march one or two columns, drawn at
    /// random.
    pub fn move_on(&mut self) -> (outcome: Result<(), &'static str>)
        requires
            old(self)@.can_advance(),
        ensures
            final(self)@ == old(self)@.advanced(1) || final(self)@ == old(self)@.advanced(2),
            outcome == final(self)@.verdict(),
    {
        let steps = draw_between(1, 3);
        self.move_on_with(steps)
    }

    /// Moves the ship one column to the left, unless it stands in column 0
    /// or left of it.
    pub fn head_left(&mut self)
        ensures
            final(self)@ == old(self)@.steered_left(),
    {
        if self.head.0 > 0 {
            self.head = self.head + Point(-1, 0);
        }
    }

    /// Moves the ship one column to the right, unless it stands in the last
    /// column or right of it.
    pub fn head_right(&mut self)
        ensures
            final(self)@ == old(self)@.steered_right(),
    {
        if self.head.0 < (self.width as i64 - 1) {
            self.head = self.head + Point(1, 0);
        }
    }

    /// Marches the invaders one column to the right, and turns them round
    /// if one of them set out from the last column but one.
    fn body_right(&mut self)
        requires
            forall|i: int|
                0 <= i < old(self)@.body.len() ==> (#[trigger] old(self)@.body[i]).0 < i64::MAX,
            old(self)@.body_direction == BodyDirection::Right,
        ensures
            final(self)@ == old(self)@.marched_once(),
    {
        let turn = any_in_column(&self.body, self.width as i64 - 2);
        self.body = shift_all(&self.body, Point(1, 0));
        if turn {
            self.body_direction = BodyDirection::Left;
        }
    }

    /// Marches the invaders one column to the left, and turns them round if
    /// one of them set out from column 1.
    fn body_left(&mut self)
        requires
            forall|i: int|
                0 <= i < old(self)@.body.len() ==> (#[trigger] old(self)@.body[i]).0 > i64::MIN,
            old(self)@.body_direction == BodyDirection::Left,
        ensures
            final(self)@ == old(self)@.marched_once(),
    {
        let turn = any_in_column(&self.body, 1);
        self.body = shift_all(&self.body, Point(-1, 0));
        if turn {
            self.body_direction = BodyDirection::Right;
        }
    }

    /// Marches the invaders `steps` columns, each in the direction in which
    /// they then head.
    fn update_body(&mut self, steps: usize)
        requires
            steps <= 2,
            forall|i: int|
                0 <= i < old(self)@.body.len() ==> i64::MIN + 2 <= (#[trigger] old(
                    self,
                )@.body[i]).0 <= i64::MAX - 2,
        ensures
            final(self)@ == old(self)@.marched(steps as nat),
    {
        let mut done: usize = 0;
        while done < steps
            invariant
                done <= steps <= 2,
                forall|i: int|
                    0 <= i < self@.body.len() ==> i64::MIN + 2 - done <= (#[trigger] self@.body[i]).0
                        <= i64::MAX - 2 + done,
                self@.marched((steps - done) as nat) == old(self)@.marched(steps as nat),
            decreases steps - done,
        {
            match self.body_direction {
                BodyDirection::Right => self.body_right(),
                BodyDirection::Left => self.body_left(),
            }
            done += 1;
        }
    }

    /// Lets the bullets fly: those above the field go, the others rise by
    /// two rows.
    fn update_bullets(&mut self)
        ensures
            final(self)@ == old(self)@.flown(),
    {
        let ghost test = in_flight();
        let mut kept: Vec<Point> = Vec::new();
        let mut i: usize = 0;
        while i < self.bullets.len()
            invariant
                i <= self.bullets.len(),
                test == in_flight(),
                kept@ == self.bullets@.take(i as int).filter(test),
                forall|j: int| 0 <= j < kept.len() ==> (#[trigger] kept[j]).1 >= 0,
            decreases self.bullets.len() - i,
        {
            let p = self.bullets[i];
            proof {
                self.bullets@.lemma_take_succ_push(i as int);
                self.bullets@.take(i as int).lemma_filter_push(p, test);
            }
            if p.1 >= 0 {
                kept.push(p);
            }
            i += 1;
        }
        assert(self.bullets@.take(self.bullets.len() as int) =~= self.bullets@);
        self.bullets = shift_all(&kept, Point(0, -2));
    }

    /// Lets the eggs fall: those below the field go, the others sink by one
    /// row.
    fn update_eggs(&mut self)
        ensures
            final(self)@ == old(self)@.fallen(),
    {
        let ghost test = above_floor(self.height as int);
        let mut kept: Vec<Point> = Vec::new();
        let mut i: usize = 0;
        while i < self.eggs.len()
            invariant
                i <= self.eggs.len(),
                test == above_floor(self.height as int),
                kept@ == self.eggs@.take(i as int).filter(test),
                forall|j: int| 0 <= j < kept.len() ==> (#[trigger] kept[j]).1 < self.height,
            decreases self.eggs.len() - i,
        {
            let p = self.eggs[i];
            proof {
                self.eggs@.lemma_take_succ_push(i as int);
                self.eggs@.take(i as int).lemma_filter_push(p, test);
            }
            if p.1 < (self.height as i64) {
                kept.push(p);
            }
            i += 1;
        }
        assert(self.eggs@.take(self.eggs.len() as int) =~= self.eggs@);
        self.eggs = shift_all(&kept, Point(0, 1));
    }

    /// Shoots a bullet into the cell above the ship, unless one is there
    /// already. Only a bullet that is shot counts against the limit.
    pub fn shoot(&mut self)
        requires
            old(self)@.head.1 > i64::MIN,
            old(self)@.shots < u32::MAX,
        ensures
            final(self)@ == old(self)@.shot(),
    {
        let bullet = self.head + Point(0, -1);
        if !contains_point(&self.bullets, bullet) {
            self.bullets.push(bullet);
            self.count_bullets += 1;
        }
    }

    /// Lets the bullets strike invaders and eggs.
    fn del_collides(&mut self)
        requires
            forall|i: int|
                0 <= i < old(self)@.eggs.len() ==> (#[trigger] old(self)@.eggs[i]).1 < i64::MAX,
            forall|i: int|
                0 <= i < old(self)@.bullets.len() ==> (#[trigger] old(self)@.bullets[i]).1
                    > i64::MIN,
        ensures
            final(self)@ == old(self)@.struck(),
    {
        let body = keep_apart(&self.body, &self.bullets);
        let eggs = keep_eggs(&self.eggs, &self.bullets);
        let bullets = keep_bullets(&self.bullets, &self.eggs);
        self.body = body;
        self.eggs = eggs;
        self.bullets = bullets;
    }
}

} // verus!
