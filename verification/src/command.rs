//! What the player can ask for, and the keys that ask for it.

use vstd::prelude::*;

verus! {

/// One step on the stage.
#[derive(Copy, Clone, Debug, PartialEq, Eq, Structural)]
pub enum Direction {
    Left,
    Right,
    Up,
    Down,
}

impl Direction {
    /// The columns that a step goes to the right.
    pub open spec fn spec_dx(self) -> int {
        match self {
            Direction::Left => -1,
            Direction::Right => 1,
            Direction::Up => 0,
            Direction::Down => 0,
        }
    }

    /// The rows that a step goes down.
    pub open spec fn spec_dy(self) -> int {
        match self {
            Direction::Left => 0,
            Direction::Right => 0,
            Direction::Up => -1,
            Direction::Down => 1,
        }
    }

    /// The step back.
    pub open spec fn spec_opposite(self) -> Direction {
        match self {
            Direction::Left => Direction::Right,
            Direction::Right => Direction::Left,
            Direction::Up => Direction::Down,
            Direction::Down => Direction::Up,
        }
    }

    /// The columns that a step goes to the right.
    pub fn dx(self) -> (r: i32)
        ensures
            r == self.spec_dx(),
    {
        match self {
            Direction::Left => -1,
            Direction::Right => 1,
            Direction::Up => 0,
            Direction::Down => 0,
        }
    }

    /// The rows that a step goes down.
    pub fn dy(self) -> (r: i32)
        ensures
            r == self.spec_dy(),
    {
        match self {
            Direction::Left => 0,
            Direction::Right => 0,
            Direction::Up => -1,
            Direction::Down => 1,
        }
    }

    /// The step back.
    #[verifier::when_used_as_spec(spec_opposite)]
    pub fn opposite(self) -> (r: Direction)
        ensures
            r == self.spec_opposite(),
    {
        match self {
            Direction::Left => Direction::Right,
            Direction::Right => Direction::Left,
            Direction::Up => Direction::Down,
            Direction::Down => Direction::Up,
        }
    }
}

/// What the player asks for in one turn.
#[derive(Copy, Clone, Debug, PartialEq, Eq, Structural)]
pub enum Command {
    /// Take one step.
    Move(Direction),
    /// Put the stage back as it was read.
    Reset,
}

impl Command {
    /// The command that a key stands for: `a` left, `s` right, `w` up,
    /// `z` down, `r` reset. No other key stands for one.
    pub open spec fn spec_from_char(c: char) -> Option<Command> {
        if c == 'a' {
            Some(Command::Move(Direction::Left))
        } else if c == 's' {
            Some(Command::Move(Direction::Right))
        } else if c == 'w' {
            Some(Command::Move(Direction::Up))
        } else if c == 'z' {
            Some(Command::Move(Direction::Down))
        } else if c == 'r' {
            Some(Command::Reset)
        } else {
            None
        }
    }

    /// Reads a key.
    #[verifier::when_used_as_spec(spec_from_char)]
    pub fn from_char(c: char) -> (r: Option<Command>)
        ensures
            r == Self::spec_from_char(c),
    {
        match c {
            'a' => Some(Command::Move(Direction::Left)),
            's' => Some(Command::Move(Direction::Right)),
            'w' => Some(Command::Move(Direction::Up)),
            'z' => Some(Command::Move(Direction::Down)),
            'r' => Some(Command::Reset),
            _ => None,
        }
    }
}

} // verus!
