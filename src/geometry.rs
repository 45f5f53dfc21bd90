use vstd::prelude::*;

verus! {

/// A heading on the grid. `Up` decreases `y`, `Down` increases it.
#[derive(Clone, Copy, Debug, PartialEq, Eq, Structural)]
pub enum Direction {
    Up,
    Down,
    Left,
    Right,
}

impl Direction {
    pub open spec fn spec_opposite(self) -> Direction {
        match self {
            Direction::Up => Direction::Down,
            Direction::Down => Direction::Up,
            Direction::Left => Direction::Right,
            Direction::Right => Direction::Left,
        }
    }

    /// The direction pointing the other way.
    pub fn opposite(&self) -> (r: Direction)
        ensures
            r == self.spec_opposite(),
            r != *self,
    {
        match self {
            Direction::Up => Direction::Down,
            Direction::Down => Direction::Up,
            Direction::Left => Direction::Right,
            Direction::Right => Direction::Left,
        }
    }
}

/// A cell of the grid.
#[derive(Clone, Copy, Debug, PartialEq, Eq, Structural)]
pub struct Point {
    pub x: i32,
    pub y: i32,
}

pub open spec fn fits_i32(v: int) -> bool {
    i32::MIN <= v <= i32::MAX
}

impl Point {
    pub fn new(x: i32, y: i32) -> (r: Point)
        ensures
            r == (Point { x, y }),
    {
        Point { x, y }
    }

    /// The point `k` unit steps away in direction `d` (coordinates wrap
    /// around where they leave the `i32` range; callers rule that out).
    pub open spec fn steps(self, d: Direction, k: int) -> Point {
        match d {
            Direction::Up => Point { x: self.x, y: (self.y - k) as i32 },
            Direction::Down => Point { x: self.x, y: (self.y + k) as i32 },
            Direction::Left => Point { x: (self.x - k) as i32, y: self.y },
            Direction::Right => Point { x: (self.x + k) as i32, y: self.y },
        }
    }

    /// The neighbouring point in direction `d`.
    pub open spec fn step(self, d: Direction) -> Point {
        self.steps(d, 1)
    }

    /// `k` unit steps in direction `d` stay within the `i32` range.
    pub open spec fn can_steps(self, d: Direction, k: int) -> bool {
        match d {
            Direction::Up => fits_i32(self.y - k),
            Direction::Down => fits_i32(self.y + k),
            Direction::Left => fits_i32(self.x - k),
            Direction::Right => fits_i32(self.x + k),
        }
    }

    pub open spec fn can_step(self, d: Direction) -> bool {
        self.can_steps(d, 1)
    }

    /// The point lies in `[0, width) x [0, height)`.
    pub open spec fn in_bounds(self, width: int, height: int) -> bool {
        0 <= self.x < width && 0 <= self.y < height
    }

    /// The order in which cells are listed: by `x`, then by `y`.
    pub open spec fn precedes(self, other: Point) -> bool {
        self.x < other.x || (self.x == other.x && self.y < other.y)
    }
}

} // verus!
