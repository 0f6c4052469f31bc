//! Small shared enumerations: color schemes, color roles, exit status,
//! sides, directions and text edits.
use vstd::prelude::*;

verus! {

/// The color schemes of the palette.
#[derive(Debug, Clone, Copy, PartialEq, Eq, Structural)]
pub enum Scheme {
    Normal,
    Fade,
    Highlight,
    Hover,
    Selected,
    Output,
    Green,
    Yellow,
    Red,
}

/// A slot within a color scheme (fg / bg / detail).
#[derive(Debug, Clone, Copy, PartialEq, Eq, Structural)]
pub enum ColorRole {
    Foreground,
    Background,
    Detail,
}

/// Process exit status: 0 = success, 1 = failure.
#[derive(Debug, Clone, Copy, PartialEq, Eq, Structural)]
pub enum ExitStatus {
    Success,
    Failure,
}

impl ExitStatus {
    /// The process exit code.
    pub fn code(self) -> (c: i32)
        ensures
            c == (match self {
                ExitStatus::Success => 0i32,
                ExitStatus::Failure => 1i32,
            }),
    {
        match self {
            ExitStatus::Success => 0,
            ExitStatus::Failure => 1,
        }
    }
}

/// Left or right: the command cell / word side an action targets.
#[derive(Debug, Clone, Copy, PartialEq, Eq, Structural)]
pub enum Side {
    Left,
    Right,
}

/// Movement direction for cursor / word-edge navigation.
#[derive(Debug, Clone, Copy, PartialEq, Eq, Structural)]
pub enum Direction {
    Forward,
    Backward,
}

impl Direction {
    /// The +1 (forward) / -1 (backward) char step this direction is.
    pub fn step(self) -> (s: isize)
        ensures
            s == (match self {
                Direction::Forward => 1isize,
                Direction::Backward => -1isize,
            }),
    {
        match self {
            Direction::Forward => 1,
            Direction::Backward => -1,
        }
    }
}

/// A text edit: insert a string at the cursor, or delete `n` bytes before
/// it (clamped at the text start).
#[derive(Debug, Clone, Copy, PartialEq, Eq)]
pub enum EditOp<'a> {
    Insert(&'a str),
    Delete(usize),
}

} // verus!
