//! What a game window decides on each frame: when the snake steps, which
//! way it heads, when it dies and when it restarts.
use vstd::prelude::*;

use crate::args::Args;
use crate::geometry::{fits_i32, Direction, Point};
use crate::snake::{BoardFull, Snake, SnakeModel};

verus! {

/// Frames drawn for each step of the snake.
pub const FRAMES_PER_TICK: u32 = 5;

/// Counts one more frame, starting again from zero after `u32::MAX`.
pub open spec fn next_count(c: u32) -> u32 {
    if c == u32::MAX {
        0
    } else {
        (c + 1) as u32
    }
}

/// A head that can take a step in any direction without leaving `i32`.
pub open spec fn can_step_anywhere(p: Point) -> bool {
    fits_i32(p.x - 1) && fits_i32(p.x + 1) && fits_i32(p.y - 1) && fits_i32(p.y + 1)
}

/// The state of a game window between frames, apart from the snake.
pub struct Session {
    pub width: u32,
    pub height: u32,
    /// The snake has hit a wall or itself; frames wait for a restart.
    pub died: bool,
    /// The heading asked for last, applied at the next step.
    pub next_snake_direction: Direction,
    /// Frames counted so far.
    pub snake_counter: u32,
}

impl Session {
    /// The session fits the snake it drives: same grid, and a living
    /// snake can take its next step.
    pub open spec fn drives(self, s: SnakeModel) -> bool {
        &&& s.width == self.width
        &&& s.height == self.height
        &&& s.grid_fits()
        &&& s.body.len() > 0
        &&& !self.died ==> can_step_anywhere(s.head())
    }

    /// Whether the snake steps on the frame with count `self.snake_counter`.
    pub open spec fn steps_now(self) -> bool {
        self.snake_counter % FRAMES_PER_TICK == 0
    }

    /// The heading asked for once `key` is read.
    pub open spec fn asked(self, key: Option<Direction>) -> Direction {
        match key {
            Some(d) => d,
            None => self.next_snake_direction,
        }
    }

    /// The snake once `key` is read, turned for the step: a key starts it.
    pub open spec fn readied(self, s: SnakeModel, key: Option<Direction>) -> SnakeModel {
        let started = if key is Some {
            SnakeModel { started: true, ..s }
        } else {
            s
        };
        started.turned(self.asked(key))
    }

    /// The snake eats on this frame.
    pub open spec fn feeds(self, s: SnakeModel, key: Option<Direction>) -> bool {
        self.steps_now() && self.readied(s, key).eats()
    }

    /// The snake after a living frame, with `fresh` as the food prepared
    /// next where it ate: on a stepping frame turned and ticked, else only
    /// started by a key.
    pub open spec fn advanced(self, s: SnakeModel, key: Option<Direction>, fresh: Point) -> SnakeModel {
        if self.steps_now() {
            self.readied(s, key).ticked(fresh)
        } else if key is Some {
            SnakeModel { started: true, ..s }
        } else {
            s
        }
    }

    /// A session for the grid that `args` gives, not yet reset.
    pub fn new(args: &Args) -> (r: Session)
        ensures
            r.width == args.width,
            r.height == args.height,
            !r.died,
            r.next_snake_direction == Direction::Right,
            r.snake_counter == 0,
    {
        Session {
            width: args.width,
            height: args.height,
            died: false,
            next_snake_direction: Direction::Right,
            snake_counter: 0,
        }
    }

    /// Starts a new game: the snake is reset and waits for a key; the
    /// heading asked for is right again.
    pub fn reset(&mut self, snake: &mut Snake) -> (r: Result<(), BoardFull>)
        requires
            old(snake).width == old(self).width,
            old(snake).height == old(self).height,
            old(snake)@.grid_fits(),
        ensures
            final(self).drives(final(snake)@),
            !final(self).died,
            final(self).next_snake_direction == Direction::Right,
            final(self).width == old(self).width,
            final(self).height == old(self).height,
            final(self).snake_counter == old(self).snake_counter,
            final(snake)@ == old(snake)@.prepared(final(snake).next_food),
            r is Err <==> !final(snake)@.has_free_cell(),
            final(snake)@.has_free_cell() ==> final(snake)@.is_free(final(snake).food),
            r is Ok ==> final(snake)@.is_free(final(snake).next_food),
    {
        self.died = false;
        self.next_snake_direction = Direction::Right;
        snake.prepare()
    }

    /// One frame. A dead snake waits: `restart` starts a new game. A
    /// living one: a `key` starts it and becomes the heading asked for; on
    /// every `FRAMES_PER_TICK`-th frame the snake turns that way and ticks;
    /// the frame is counted; and a snake whose head has left the grid or
    /// lies on its body dies. `BoardFull` where the snake ate and no free
    /// cell was left for new food.
    pub fn frame(&mut self, snake: &mut Snake, key: Option<Direction>, restart: bool) -> (r: Result<
        (),
        BoardFull,
    >)
        requires
            old(self).drives(old(snake)@),
        ensures
            final(self).drives(final(snake)@),
            final(self).width == old(self).width,
            final(self).height == old(self).height,
            old(self).died && !restart ==> *final(self) == *old(self) && final(snake)@ == old(snake)@
                && r is Ok,
            old(self).died && restart ==> {
                &&& !final(self).died
                &&& final(self).next_snake_direction == Direction::Right
                &&& final(self).snake_counter == old(self).snake_counter
                &&& final(snake)@ == old(snake)@.prepared(final(snake).next_food)
                &&& (r is Err <==> !final(snake)@.has_free_cell())
                &&& (final(snake)@.has_free_cell() ==> final(snake)@.is_free(final(snake).food))
                &&& (r is Ok ==> final(snake)@.is_free(final(snake).next_food))
            },
            !old(self).died ==> {
                let s = old(snake)@;
                let t = final(snake)@;
                let fed = old(self).feeds(s, key);
                &&& final(self).next_snake_direction == old(self).asked(key)
                &&& t == old(self).advanced(s, key, t.next_food)
                &&& final(self).snake_counter == next_count(old(self).snake_counter)
                &&& final(self).died == (t.collides_with_wall(old(self).width as int, old(self).height as int)
                    || t.collides_with_self())
                &&& !fed ==> r is Ok
                &&& fed ==> (r is Err <==> !t.has_free_cell())
                &&& fed && r is Ok ==> t.is_free(t.next_food)
            },
    {
        if self.died {
            if restart {
                return self.reset(snake);
            }
            return Ok(());
        }
        if let Some(d) = key {
            self.next_snake_direction = d;
            snake.start();
        }
        let mut r: Result<(), BoardFull> = Ok(());
        if self.snake_counter % FRAMES_PER_TICK == 0 {
            snake.turn(self.next_snake_direction);
            r = snake.update();
        }
        self.snake_counter = if self.snake_counter == u32::MAX {
            0
        } else {
            self.snake_counter + 1
        };
        if snake.collides_with_wall(self.width, self.height) || snake.collides_with_self() {
            self.died = true;
        }
        r
    }
}

} // verus!
