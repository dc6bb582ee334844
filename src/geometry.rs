//! Board coordinates, the playing field and the four headings.
use vstd::prelude::*;

verus! {

/// A cell of the board; `y` grows downward.
#[derive(Clone, Copy, Debug, PartialEq, Eq, Structural)]
pub struct Point {
    pub x: i32,
    pub y: i32,
}

/// Both components of `a + b` fit in `i32`.
pub open spec fn sum_fits(a: Point, b: Point) -> bool {
    i32::MIN <= a.x + b.x <= i32::MAX && i32::MIN <= a.y + b.y <= i32::MAX
}

/// The component-wise sum of two points.
pub open spec fn point_sum(a: Point, b: Point) -> Point {
    Point { x: (a.x + b.x) as i32, y: (a.y + b.y) as i32 }
}

impl Point {
    /// Component-wise sum.
    pub fn add(self, other: Point) -> (r: Point)
        requires
            sum_fits(self, other),
        ensures
            r.x == self.x + other.x,
            r.y == self.y + other.y,
            r == point_sum(self, other),
    {
        Point { x: self.x + other.x, y: self.y + other.y }
    }
}

/// The playing field `[0, width) x [0, height)`.
#[derive(Clone, Copy, Debug, PartialEq, Eq, Structural)]
pub struct Grid {
    pub width: i32,
    pub height: i32,
}

impl Grid {
    /// A field has at least one cell in each direction.
    pub open spec fn wf(&self) -> bool {
        self.width >= 1 && self.height >= 1
    }

    /// Whether `p` lies on the field.
    pub open spec fn contains(&self, p: Point) -> bool {
        0 <= p.x < self.width && 0 <= p.y < self.height
    }

    /// Whether `p` lies outside the field.
    pub fn ofb(&self, p: &Point) -> (r: bool)
        ensures
            r == !self.contains(*p),
    {
        p.x < 0 || p.x >= self.width || p.y < 0 || p.y >= self.height
    }
}

/// A heading of the snake.
#[derive(Clone, Copy, Debug, PartialEq, Eq, Structural)]
pub enum Direction {
    Up,
    Right,
    Down,
    Left,
}

impl Direction {
    /// The unit displacement of one move in this heading.
    pub open spec fn offset_spec(self) -> Point {
        match self {
            Direction::Up => Point { x: 0, y: -1i32 },
            Direction::Left => Point { x: -1i32, y: 0 },
            Direction::Right => Point { x: 1, y: 0 },
            Direction::Down => Point { x: 0, y: 1 },
        }
    }

    /// The heading that points the other way.
    pub open spec fn opposite_spec(self) -> Direction {
        match self {
            Direction::Up => Direction::Down,
            Direction::Left => Direction::Right,
            Direction::Right => Direction::Left,
            Direction::Down => Direction::Up,
        }
    }

    pub fn offset(&self) -> (r: Point)
        ensures
            r == self.offset_spec(),
    {
        match self {
            Direction::Up => Point { x: 0, y: -1 },
            Direction::Left => Point { x: -1, y: 0 },
            Direction::Right => Point { x: 1, y: 0 },
            Direction::Down => Point { x: 0, y: 1 },
        }
    }

    pub fn opposite(&self) -> (r: Direction)
        ensures
            r == self.opposite_spec(),
    {
        match self {
            Direction::Up => Direction::Down,
            Direction::Left => Direction::Right,
            Direction::Right => Direction::Left,
            Direction::Down => Direction::Up,
        }
    }
}

/// Turning around twice gives back the heading one started with, and no
/// heading is its own opposite.
pub proof fn lemma_opposite_involutive(d: Direction)
    ensures
        d.opposite_spec().opposite_spec() == d,
        d.opposite_spec() != d,
{
}

} // verus!
