//! Compass and relative directions, and how an orientation is updated.
use vstd::prelude::*;

verus! {

/// A compass direction. North is `+y`, East is `+x`.
#[derive(Copy, Clone, Debug, PartialEq, Eq, Structural)]
pub enum AbsoluteDirection {
    N,
    S,
    E,
    W,
}

/// A direction relative to the way an actor faces.
#[derive(Copy, Clone, Debug, PartialEq, Eq, Structural)]
pub enum RelativeDirection {
    F,
    B,
    L,
    R,
}

/// Either kind of direction.
#[derive(Copy, Clone, Debug, PartialEq, Eq, Structural)]
pub enum Direction {
    Absolute(AbsoluteDirection),
    Relative(RelativeDirection),
}

/// The compass direction with quarter-turn index `i` (taken modulo 4),
/// counting clockwise from North.
pub open spec fn direction_from_index(i: int) -> AbsoluteDirection {
    let r = i % 4;
    if r == 0 {
        AbsoluteDirection::N
    } else if r == 1 {
        AbsoluteDirection::E
    } else if r == 2 {
        AbsoluteDirection::S
    } else {
        AbsoluteDirection::W
    }
}

/// The relative direction with quarter-turn index `i` (taken modulo 4),
/// counting clockwise from Forward.
pub open spec fn relative_from_index(i: int) -> RelativeDirection {
    let r = i % 4;
    if r == 0 {
        RelativeDirection::F
    } else if r == 1 {
        RelativeDirection::R
    } else if r == 2 {
        RelativeDirection::B
    } else {
        RelativeDirection::L
    }
}

impl AbsoluteDirection {
    /// Number of clockwise quarter turns from North.
    pub open spec fn index(self) -> int {
        match self {
            AbsoluteDirection::N => 0,
            AbsoluteDirection::E => 1,
            AbsoluteDirection::S => 2,
            AbsoluteDirection::W => 3,
        }
    }

    /// The orientation that results from applying `update` to `self`: an
    /// absolute direction replaces it, a relative one turns it.
    pub open spec fn spec_rotate(self, update: Direction) -> AbsoluteDirection {
        match update {
            Direction::Absolute(abs) => abs,
            Direction::Relative(rel) => direction_from_index(rel.index() + self.index()),
        }
    }

    /// The relative direction that turns `from` into `self`.
    pub open spec fn spec_difference(self, from: AbsoluteDirection) -> RelativeDirection {
        relative_from_index(self.index() - from.index() + 4)
    }

    pub fn to_int(&self) -> (r: i8)
        ensures
            r == self.index(),
    {
        match self {
            AbsoluteDirection::N => 0,
            AbsoluteDirection::E => 1,
            AbsoluteDirection::S => 2,
            AbsoluteDirection::W => 3,
        }
    }

    /// The direction `i` quarter turns clockwise from North. A negative `i`
    /// that is not a multiple of 4 has a negative remainder, for which there
    /// is no direction.
    pub fn from_int(i: i8) -> (r: AbsoluteDirection)
        requires
            i >= 0 || i % 4 == 0,
        ensures
            r == direction_from_index(i as int),
    {
        if i < 0 {
            return AbsoluteDirection::N;
        }
        let r: u8 = (i as u8) % 4;
        if r == 0 {
            AbsoluteDirection::N
        } else if r == 1 {
            AbsoluteDirection::E
        } else if r == 2 {
            AbsoluteDirection::S
        } else {
            AbsoluteDirection::W
        }
    }

    /// Applies a direction to an orientation.
    pub fn rotate(&self, update: &Direction) -> (r: AbsoluteDirection)
        ensures
            r == self.spec_rotate(*update),
    {
        match update {
            Direction::Absolute(abs) => *abs,
            Direction::Relative(rel) => AbsoluteDirection::from_int(rel.to_int() + self.to_int()),
        }
    }

    /// The relative direction that, applied to `from`, gives `self`.
    pub fn difference(&self, from: &AbsoluteDirection) -> (r: RelativeDirection)
        ensures
            r == self.spec_difference(*from),
            from.spec_rotate(Direction::Relative(r)) == *self,
    {
        let d: i8 = self.to_int() - from.to_int() + 4;
        let r: u8 = (d as u8) % 4;
        if r == 0 {
            RelativeDirection::F
        } else if r == 1 {
            RelativeDirection::R
        } else if r == 2 {
            RelativeDirection::B
        } else {
            RelativeDirection::L
        }
    }
}

impl RelativeDirection {
    /// Number of clockwise quarter turns from Forward.
    pub open spec fn index(self) -> int {
        match self {
            RelativeDirection::F => 0,
            RelativeDirection::R => 1,
            RelativeDirection::B => 2,
            RelativeDirection::L => 3,
        }
    }

    pub fn to_int(&self) -> (r: i8)
        ensures
            r == self.index(),
    {
        match self {
            RelativeDirection::F => 0,
            RelativeDirection::R => 1,
            RelativeDirection::B => 2,
            RelativeDirection::L => 3,
        }
    }
}

impl Direction {
    pub open spec fn index(self) -> int {
        match self {
            Direction::Absolute(x) => x.index(),
            Direction::Relative(x) => x.index(),
        }
    }

    pub fn to_int(&self) -> (r: i8)
        ensures
            r == self.index(),
    {
        match self {
            Direction::Absolute(x) => x.to_int(),
            Direction::Relative(x) => x.to_int(),
        }
    }
}

/// A direction's number gives the direction back.
pub proof fn lemma_int_roundtrip(d: AbsoluteDirection)
    ensures
        direction_from_index(d.index()) == d,
        0 <= d.index() < 4,
{
}

/// Turning forward keeps an orientation; turning right four times, or
/// turning back twice, comes back to it.
pub proof fn lemma_relative_turns(d: AbsoluteDirection)
    ensures
        d.spec_rotate(Direction::Relative(RelativeDirection::F)) == d,
        d.spec_rotate(Direction::Relative(RelativeDirection::B)).spec_rotate(
            Direction::Relative(RelativeDirection::B),
        ) == d,
        d.spec_rotate(Direction::Relative(RelativeDirection::R)).spec_rotate(
            Direction::Relative(RelativeDirection::L),
        ) == d,
{
}

/// Relative turns compose by adding their quarter turns.
pub proof fn lemma_rotate_compose(d: AbsoluteDirection, a: RelativeDirection, b: RelativeDirection)
    ensures
        d.spec_rotate(Direction::Relative(a)).spec_rotate(Direction::Relative(b))
            == direction_from_index(d.index() + a.index() + b.index()),
{
}

/// A direction converted to the relative turn from an orientation, then
/// applied to that orientation, gives back the direction.
pub proof fn lemma_difference_roundtrip(target: AbsoluteDirection, from: AbsoluteDirection)
    ensures
        from.spec_rotate(Direction::Relative(target.spec_difference(from))) == target,
{
}

/// The relative turn between an orientation and the result of turning it is
/// that turn.
pub proof fn lemma_rotate_difference(from: AbsoluteDirection, rel: RelativeDirection)
    ensures
        from.spec_rotate(Direction::Relative(rel)).spec_difference(from) == rel,
{
}

} // verus!
