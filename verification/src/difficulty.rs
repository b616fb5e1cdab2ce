//! The difficulty levels of the computer opponent.

use vstd::prelude::*;
use crate::render::Tint;

verus! {

#[derive(Clone, Copy, PartialEq, Eq, Structural, Debug)]
pub enum Difficulty {
    Easy,
    Medium,
    Hard,
}

impl Difficulty {
    /// The number that stands for this level: 0, 1, 2 from easiest to hardest.
    pub open spec fn code(self) -> nat {
        match self {
            Difficulty::Easy => 0,
            Difficulty::Medium => 1,
            Difficulty::Hard => 2,
        }
    }

    /// The display name.
    pub open spec fn name(self) -> Seq<char> {
        match self {
            Difficulty::Easy => "Easy"@,
            Difficulty::Medium => "Medium"@,
            Difficulty::Hard => "Hard"@,
        }
    }

    pub fn to_string(&self) -> (s: &'static str)
        ensures
            s@ == self.name(),
    {
        match self {
            Self::Easy => "Easy",
            Self::Medium => "Medium",
            Self::Hard => "Hard",
        }
    }

    /// The colour in which the level's name is shown.
    pub open spec fn color(self) -> Tint {
        match self {
            Difficulty::Easy => Tint::Green,
            Difficulty::Medium => Tint::Yellow,
            Difficulty::Hard => Tint::Red,
        }
    }

    pub fn get_color(&self) -> (color: Tint)
        ensures
            color == self.color(),
    {
        match self {
            Self::Easy => Tint::Green,
            Self::Medium => Tint::Yellow,
            Self::Hard => Tint::Red,
        }
    }

    /// The level that a number stands for, if any.
    pub fn from_u32(n: u32) -> (level: Option<Difficulty>)
        ensures
            n <= 2 <==> level is Some,
            level is Some ==> level->Some_0.code() == n,
    {
        match n {
            0 => Some(Difficulty::Easy),
            1 => Some(Difficulty::Medium),
            2 => Some(Difficulty::Hard),
            _ => None,
        }
    }

    /// The number that stands for this level.
    pub fn to_u32(&self) -> (n: u32)
        ensures
            n == self.code(),
    {
        match self {
            Self::Easy => 0,
            Self::Medium => 1,
            Self::Hard => 2,
        }
    }
}

} // verus!
