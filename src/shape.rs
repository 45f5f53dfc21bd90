//! How each segment of the body is drawn as a line: straight across, straight
//! down, or as a corner joining its two neighbours.
use vstd::prelude::*;

use crate::geometry::{Direction, Point};
use crate::snake::{Snake, SnakeModel};

verus! {

/// The piece of line drawn in a segment's cell.
#[derive(Clone, Copy, Debug, PartialEq, Eq, Structural)]
pub enum SegmentShape {
    /// Joins the cells above and below.
    Vertical,
    /// Joins the cells left and right.
    Horizontal,
    /// Joins the cells left and above.
    TopLeft,
    /// Joins the cells left and below.
    BottomLeft,
    /// Joins the cells right and above.
    TopRight,
    /// Joins the cells right and below.
    BottomRight,
}

/// The shape of the segment at `curr` whose neighbours along the line are
/// `prev` and `next`.
pub open spec fn shape_of(prev: Point, curr: Point, next: Point) -> SegmentShape {
    if prev.x == next.x {
        SegmentShape::Vertical
    } else if prev.y == next.y {
        SegmentShape::Horizontal
    } else if (prev.x < curr.x && next.y < curr.y) || (next.x < curr.x && prev.y < curr.y) {
        SegmentShape::TopLeft
    } else if (prev.x < curr.x && next.y > curr.y) || (next.x < curr.x && prev.y > curr.y) {
        SegmentShape::BottomLeft
    } else if (prev.x > curr.x && next.y < curr.y) || (next.x > curr.x && prev.y < curr.y) {
        SegmentShape::TopRight
    } else {
        SegmentShape::BottomRight
    }
}

/// The neighbours of segment `i` along the line: the one before it (for the
/// head, the cell it heads into) and the one after it (for the tail, the
/// cell the tail left last).
pub open spec fn neighbours_of(m: SnakeModel, i: int) -> (Point, Point) {
    if i == 0 {
        (m.head().step(m.direction), m.body[1])
    } else if i == m.body.len() - 1 {
        (m.body[i - 1], m.last_tail)
    } else {
        (m.body[i - 1], m.body[i + 1])
    }
}

/// Classifies the segment at `curr` between `prev` and `next`.
pub fn segment_shape(prev: Point, curr: Point, next: Point) -> (r: SegmentShape)
    ensures
        r == shape_of(prev, curr, next),
{
    if prev.x == next.x {
        SegmentShape::Vertical
    } else if prev.y == next.y {
        SegmentShape::Horizontal
    } else if (prev.x < curr.x && next.y < curr.y) || (next.x < curr.x && prev.y < curr.y) {
        SegmentShape::TopLeft
    } else if (prev.x < curr.x && next.y > curr.y) || (next.x < curr.x && prev.y > curr.y) {
        SegmentShape::BottomLeft
    } else if (prev.x > curr.x && next.y < curr.y) || (next.x > curr.x && prev.y < curr.y) {
        SegmentShape::TopRight
    } else {
        SegmentShape::BottomRight
    }
}

/// The neighbours of segment `i`; `None` where there is no such segment,
/// the body has fewer than two, or the cell ahead of the head leaves `i32`.
pub fn segment_neighbours(snake: &Snake, i: usize) -> (r: Option<(Point, Point)>)
    ensures
        r is Some <==> segment_neighbours_exist(snake@, i as int),
        r is Some ==> r->Some_0 == neighbours_of(snake@, i as int),
{
    let n = snake.body.len();
    if i >= n || n < 2 {
        return None;
    }
    if i == 0 {
        let head = snake.body[0];
        let ahead = match snake.direction {
            Direction::Up => {
                if head.y == i32::MIN {
                    return None;
                }
                Point::new(head.x, head.y - 1)
            },
            Direction::Down => {
                if head.y == i32::MAX {
                    return None;
                }
                Point::new(head.x, head.y + 1)
            },
            Direction::Left => {
                if head.x == i32::MIN {
                    return None;
                }
                Point::new(head.x - 1, head.y)
            },
            Direction::Right => {
                if head.x == i32::MAX {
                    return None;
                }
                Point::new(head.x + 1, head.y)
            },
        };
        Some((ahead, snake.body[1]))
    } else if i == n - 1 {
        Some((snake.body[i - 1], snake.last_tail))
    } else {
        Some((snake.body[i - 1], snake.body[i + 1]))
    }
}

/// The shape that segment `i` is drawn with, where it has neighbours.
pub fn segment_shape_at(snake: &Snake, i: usize) -> (r: Option<SegmentShape>)
    ensures
        r is Some <==> segment_neighbours_exist(snake@, i as int),
        r is Some ==> r->Some_0 == shape_of(
            neighbours_of(snake@, i as int).0,
            snake@.body[i as int],
            neighbours_of(snake@, i as int).1,
        ),
{
    match segment_neighbours(snake, i) {
        Some((prev, next)) => Some(segment_shape(prev, snake.body[i], next)),
        None => None,
    }
}

/// Segment `i` exists, has a neighbour on each side, and the cell ahead of
/// the head fits in `i32`.
pub open spec fn segment_neighbours_exist(m: SnakeModel, i: int) -> bool {
    0 <= i < m.body.len() && m.body.len() >= 2 && (i == 0 ==> m.head().can_step(m.direction))
}

} // verus!
