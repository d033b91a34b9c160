//! Cell coordinates shared by the three simulations.

use vstd::prelude::*;
use vstd::std_specs::ops::AddSpecImpl;

verus! {

/// A cell coordinate: column first (growing rightward), then row (growing
/// downward). The origin is the top-left cell of a play-field.
#[derive(Debug, PartialEq, Eq, Hash, Clone, Copy, Structural)]
pub struct Point(pub i64, pub i64);

impl Point {
    /// The column, as a mathematical integer.
    pub open spec fn col(self) -> int {
        self.0 as int
    }

    /// The row, as a mathematical integer.
    pub open spec fn row(self) -> int {
        self.1 as int
    }

    /// Whether the component-wise sum with `rhs` fits the coordinate type.
    pub open spec fn can_add(self, rhs: Point) -> bool {
        &&& i64::MIN <= self.0 + rhs.0 <= i64::MAX
        &&& i64::MIN <= self.1 + rhs.1 <= i64::MAX
    }

    /// The component-wise sum with `rhs`.
    pub open spec fn plus(self, rhs: Point) -> Point {
        Point((self.0 + rhs.0) as i64, (self.1 + rhs.1) as i64)
    }

    /// Translates this point by `rhs` in place.
    pub fn add_assign(&mut self, rhs: Point)
        requires
            old(self).can_add(rhs),
        ensures
            *final(self) == old(self).plus(rhs),
    {
        self.0 = self.0 + rhs.0;
        self.1 = self.1 + rhs.1;
    }
}

impl core::ops::Add<Point> for Point {
    type Output = Point;

    fn add(self, rhs: Point) -> (sum: Point) {
        Point(self.0 + rhs.0, self.1 + rhs.1)
    }
}

impl AddSpecImpl<Point> for Point {
    open spec fn obeys_add_spec() -> bool {
        true
    }

    open spec fn add_req(self, rhs: Point) -> bool {
        self.can_add(rhs)
    }

    open spec fn add_spec(self, rhs: Point) -> Point {
        self.plus(rhs)
    }
}

/// Tells whether `cells` holds `p`.
pub fn contains_point(cells: &Vec<Point>, p: Point) -> (found: bool)
    ensures
        found == cells@.contains(p),
{
    let mut i: usize = 0;
    while i < cells.len()
        invariant
            i <= cells.len(),
            forall|j: int| 0 <= j < i ==> cells@[j] != p,
        decreases cells.len() - i,
    {
        if cells[i] == p {
            return true;
        }
        i += 1;
    }
    false
}

} // verus!
