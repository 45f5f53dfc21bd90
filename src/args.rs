use vstd::prelude::*;

verus! {

/// What the program is asked to do.
#[derive(Clone, Copy, Debug, PartialEq, Eq, Structural)]
pub enum Commands {
    Play,
}

/// How the snake's body is drawn.
#[derive(Clone, Copy, Debug, PartialEq, Eq, Structural)]
pub enum SnakeStyle {
    Block,
    Line,
}

impl Default for SnakeStyle {
    fn default() -> (r: SnakeStyle)
        ensures
            r == SnakeStyle::Line,
    {
        SnakeStyle::Line
    }
}

/// Settings of a game session.
#[derive(Clone, Copy, Debug, PartialEq, Eq, Structural)]
pub struct Args {
    pub cmd: Commands,
    pub width: u32,
    pub height: u32,
    pub style: SnakeStyle,
    pub fps: u32,
}

} // verus!
