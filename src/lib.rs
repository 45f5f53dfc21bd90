//! A grid-based snake game engine: the snake's movement, growth and
//! collision rules, and placement of food on free cells.

pub mod args;
pub mod geometry;
pub mod lemmas;
pub mod random;
pub mod session;
pub mod shape;
pub mod snake;
