use std::collections::VecDeque;

use snake_engine::args::{Args, Commands, SnakeStyle};
use snake_engine::geometry::{Direction, Point};
use snake_engine::session::{Session, FRAMES_PER_TICK};
use snake_engine::shape::{segment_neighbours, segment_shape, segment_shape_at, SegmentShape};
use snake_engine::snake::Snake;

fn args(width: u32, height: u32) -> Args {
    Args { cmd: Commands::Play, width, height, style: SnakeStyle::Block, fps: 30 }
}

fn pts(cells: &[(i32, i32)]) -> VecDeque<Point> {
    cells.iter().map(|&(x, y)| Point::new(x, y)).collect()
}

fn fresh_game(width: u32, height: u32) -> (Session, Snake) {
    let a = args(width, height);
    let mut session = Session::new(&a);
    let mut snake = Snake::new(a);
    session.reset(&mut snake).unwrap();
    (session, snake)
}

#[test]
fn session_new_waits_heading_right() {
    let s = Session::new(&args(8, 6));
    assert_eq!(s.width, 8);
    assert_eq!(s.height, 6);
    assert!(!s.died);
    assert_eq!(s.next_snake_direction, Direction::Right);
    assert_eq!(s.snake_counter, 0);
}

#[test]
fn idle_snake_stays_put_without_key() {
    let (mut session, mut snake) = fresh_game(20, 20);
    for _ in 0..12 {
        assert_eq!(session.frame(&mut snake, None, false), Ok(()));
    }
    assert_eq!(snake.body, pts(&[(2, 10), (1, 10), (0, 10)]));
    assert_eq!(session.snake_counter, 12);
    assert!(!session.died);
}

#[test]
fn key_starts_and_turns_on_stepping_frame() {
    let (mut session, mut snake) = fresh_game(20, 20);
    assert_eq!(session.frame(&mut snake, Some(Direction::Down), false), Ok(()));
    assert!(snake.started);
    assert_eq!(snake.body, pts(&[(2, 11), (2, 10), (1, 10)]));
    assert_eq!(session.next_snake_direction, Direction::Down);
    assert_eq!(session.snake_counter, 1);
}

#[test]
fn snake_steps_once_per_tick_interval() {
    let (mut session, mut snake) = fresh_game(20, 20);
    session.frame(&mut snake, Some(Direction::Right), false).unwrap();
    assert_eq!(*snake.head(), Point::new(3, 10));
    for _ in 1..FRAMES_PER_TICK {
        session.frame(&mut snake, None, false).unwrap();
        assert_eq!(*snake.head(), Point::new(3, 10));
    }
    session.frame(&mut snake, None, false).unwrap();
    assert_eq!(*snake.head(), Point::new(4, 10));
}

#[test]
fn reverse_key_does_not_turn_snake() {
    let (mut session, mut snake) = fresh_game(20, 20);
    session.frame(&mut snake, Some(Direction::Left), false).unwrap();
    assert_eq!(snake.direction, Direction::Right);
    assert_eq!(*snake.head(), Point::new(3, 10));
}

#[test]
fn hitting_wall_kills_and_restart_resets() {
    let (mut session, mut snake) = fresh_game(20, 20);
    snake.body = pts(&[(19, 5), (18, 5), (17, 5)]);
    snake.food = Point::new(0, 0);
    session.frame(&mut snake, Some(Direction::Right), false).unwrap();
    assert!(session.died);
    assert_eq!(*snake.head(), Point::new(20, 5));
    let counter = session.snake_counter;
    assert_eq!(session.frame(&mut snake, Some(Direction::Up), false), Ok(()));
    assert!(session.died);
    assert_eq!(*snake.head(), Point::new(20, 5));
    assert_eq!(session.snake_counter, counter);
    assert_eq!(session.frame(&mut snake, None, true), Ok(()));
    assert!(!session.died);
    assert_eq!(session.next_snake_direction, Direction::Right);
    assert_eq!(snake.body, pts(&[(2, 10), (1, 10), (0, 10)]));
    assert!(!snake.started);
}

#[test]
fn biting_itself_kills() {
    let (mut session, mut snake) = fresh_game(10, 10);
    snake.body = pts(&[(4, 4), (5, 4), (5, 5), (4, 5), (3, 5)]);
    snake.direction = Direction::Left;
    snake.food = Point::new(0, 0);
    session.frame(&mut snake, Some(Direction::Down), false).unwrap();
    assert_eq!(*snake.head(), Point::new(4, 5));
    assert!(session.died);
}

#[test]
fn shapes_of_straight_segments() {
    let c = Point::new(5, 5);
    assert_eq!(segment_shape(Point::new(5, 4), c, Point::new(5, 6)), SegmentShape::Vertical);
    assert_eq!(segment_shape(Point::new(6, 5), c, Point::new(4, 5)), SegmentShape::Horizontal);
}

#[test]
fn shapes_of_corners() {
    let c = Point::new(5, 5);
    assert_eq!(segment_shape(Point::new(4, 5), c, Point::new(5, 4)), SegmentShape::TopLeft);
    assert_eq!(segment_shape(Point::new(5, 4), c, Point::new(4, 5)), SegmentShape::TopLeft);
    assert_eq!(segment_shape(Point::new(4, 5), c, Point::new(5, 6)), SegmentShape::BottomLeft);
    assert_eq!(segment_shape(Point::new(5, 6), c, Point::new(4, 5)), SegmentShape::BottomLeft);
    assert_eq!(segment_shape(Point::new(6, 5), c, Point::new(5, 4)), SegmentShape::TopRight);
    assert_eq!(segment_shape(Point::new(5, 4), c, Point::new(6, 5)), SegmentShape::TopRight);
    assert_eq!(segment_shape(Point::new(6, 5), c, Point::new(5, 6)), SegmentShape::BottomRight);
    assert_eq!(segment_shape(Point::new(5, 6), c, Point::new(6, 5)), SegmentShape::BottomRight);
}

#[test]
fn neighbours_of_head_middle_and_tail() {
    let mut snake = Snake::new(args(10, 10));
    snake.body = pts(&[(5, 5), (5, 6), (4, 6)]);
    snake.direction = Direction::Up;
    snake.last_tail = Point::new(3, 6);
    assert_eq!(segment_neighbours(&snake, 0), Some((Point::new(5, 4), Point::new(5, 6))));
    assert_eq!(segment_neighbours(&snake, 1), Some((Point::new(5, 5), Point::new(4, 6))));
    assert_eq!(segment_neighbours(&snake, 2), Some((Point::new(5, 6), Point::new(3, 6))));
    assert_eq!(segment_neighbours(&snake, 3), None);
    assert_eq!(segment_shape_at(&snake, 0), Some(SegmentShape::Vertical));
    assert_eq!(segment_shape_at(&snake, 1), Some(SegmentShape::TopLeft));
    assert_eq!(segment_shape_at(&snake, 2), Some(SegmentShape::Horizontal));
}

#[test]
fn neighbours_need_two_segments_and_room_ahead() {
    let mut snake = Snake::new(args(10, 10));
    snake.body = pts(&[(5, 5)]);
    assert_eq!(segment_neighbours(&snake, 0), None);
    snake.body = pts(&[(i32::MAX, 5), (i32::MAX - 1, 5)]);
    snake.direction = Direction::Right;
    assert_eq!(segment_neighbours(&snake, 0), None);
    assert_eq!(segment_shape_at(&snake, 0), None);
}

#[test]
fn last_key_between_steps_wins() {
    let (mut session, mut snake) = fresh_game(20, 20);
    session.frame(&mut snake, Some(Direction::Right), false).unwrap();
    assert_eq!(*snake.head(), Point::new(3, 10));
    session.frame(&mut snake, Some(Direction::Up), false).unwrap();
    session.frame(&mut snake, Some(Direction::Down), false).unwrap();
    assert_eq!(snake.direction, Direction::Right);
    assert_eq!(*snake.head(), Point::new(3, 10));
    for _ in 3..FRAMES_PER_TICK {
        session.frame(&mut snake, None, false).unwrap();
    }
    session.frame(&mut snake, None, false).unwrap();
    assert_eq!(snake.direction, Direction::Down);
    assert_eq!(*snake.head(), Point::new(3, 11));
}
