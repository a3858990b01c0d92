//! Tagged unions: a plain enumeration with per-variant behaviour
//! chosen by exhaustive branching, and a richer union whose variants
//! carry zero, named, single, or multiple payload values.

use vstd::prelude::*;

verus! {

/// A compass direction, one of exactly four value-less variants.
#[derive(Clone, Copy, Debug, PartialEq, Eq, Structural)]
pub enum Direction {
    North,
    South,
    East,
    West,
}

impl Direction {
    /// Returns a message based on the direction.
    pub fn message(&self) -> (r: &'static str)
        ensures
            r@ == match *self {
                Direction::North => "You are heading North!"@,
                Direction::South => "You are heading South!"@,
                Direction::East => "You are heading East!"@,
                Direction::West => "You are heading West!"@,
            },
    {
        match self {
            Direction::North => "You are heading North!",
            Direction::South => "You are heading South!",
            Direction::East => "You are heading East!",
            Direction::West => "You are heading West!",
        }
    }

    /// A travel note for the direction, again one arm per variant.
    pub fn travel_note(&self) -> (r: &'static str)
        ensures
            r@ == match *self {
                Direction::North => "North - Cold regions ahead"@,
                Direction::South => "South - Warm weather coming"@,
                Direction::East => "East - Sunrise direction"@,
                Direction::West => "West - Sunset direction"@,
            },
    {
        match self {
            Direction::North => "North - Cold regions ahead",
            Direction::South => "South - Warm weather coming",
            Direction::East => "East - Sunrise direction",
            Direction::West => "West - Sunset direction",
        }
    }
}

/// A message whose variants carry no data, two named fields, one text
/// payload, or three numeric payloads.
#[derive(Debug)]
pub enum Message {
    Quit,
    Move { x: i32, y: i32 },
    Write(String),
    ChangeColor(u8, u8, u8),
}

impl Message {
    /// The variant's name, chosen by an exhaustive match.
    pub fn label(&self) -> (r: &'static str)
        ensures
            r@ == match *self {
                Message::Quit => "Quit"@,
                Message::Move { .. } => "Move"@,
                Message::Write(_) => "Write"@,
                Message::ChangeColor(..) => "ChangeColor"@,
            },
    {
        match self {
            Message::Quit => "Quit",
            Message::Move { .. } => "Move",
            Message::Write(_) => "Write",
            Message::ChangeColor(..) => "ChangeColor",
        }
    }
}

} // verus!
