//! Grid coordinates.
use vstd::prelude::*;
use crate::direction::{AbsoluteDirection, direction_from_index};

verus! {

/// A cell of the grid. `+y` is North, `+x` is East.
#[derive(Clone, Copy, Debug, Hash, PartialEq, Eq, Structural)]
pub struct Coordinate {
    pub x: i32,
    pub y: i32,
}

/// The sum of two coordinates, as mathematical integers.
pub open spec fn sum_fits(a: Coordinate, b: Coordinate) -> bool {
    i32::MIN <= a.x + b.x <= i32::MAX && i32::MIN <= a.y + b.y <= i32::MAX
}

/// The components that turning `c` to face `d` negates are not `i32::MIN`.
pub open spec fn turnable(c: Coordinate, d: AbsoluteDirection) -> bool {
    match d {
        AbsoluteDirection::N => true,
        AbsoluteDirection::E => c.x != i32::MIN,
        AbsoluteDirection::S => c.x != i32::MIN && c.y != i32::MIN,
        AbsoluteDirection::W => c.y != i32::MIN,
    }
}

/// Neither component is `i32::MIN`, so both can be negated.
pub open spec fn negatable(c: Coordinate) -> bool {
    c.x != i32::MIN && c.y != i32::MIN
}

pub open spec fn spec_min(a: int, b: int) -> int {
    if a <= b {
        a
    } else {
        b
    }
}

pub open spec fn spec_max(a: int, b: int) -> int {
    if a <= b {
        b
    } else {
        a
    }
}

pub open spec fn spec_clamp(v: int, lo: int, hi: int) -> int {
    if v < lo {
        lo
    } else if v > hi {
        hi
    } else {
        v
    }
}

impl Coordinate {
    pub open spec fn spec_plus(self, rhs: Coordinate) -> Coordinate {
        Coordinate { x: (self.x + rhs.x) as i32, y: (self.y + rhs.y) as i32 }
    }

    /// `self`, given as an offset relative to a North-facing actor, turned to
    /// face `d`.
    pub open spec fn spec_oriented(self, d: AbsoluteDirection) -> Coordinate {
        match d {
            AbsoluteDirection::N => self,
            AbsoluteDirection::E => Coordinate { x: self.y, y: (-self.x) as i32 },
            AbsoluteDirection::S => Coordinate { x: (-self.x) as i32, y: (-self.y) as i32 },
            AbsoluteDirection::W => Coordinate { x: (-self.y) as i32, y: self.x },
        }
    }

    pub open spec fn spec_as_offset(
        offset: Coordinate,
        location: Coordinate,
        orientation: AbsoluteDirection,
    ) -> Coordinate {
        location.spec_plus(offset.spec_oriented(orientation))
    }

    /// `as_offset` neither overflows nor negates `i32::MIN`.
    pub open spec fn offset_fits(
        offset: Coordinate,
        location: Coordinate,
        orientation: AbsoluteDirection,
    ) -> bool {
        turnable(offset, orientation) && sum_fits(location, offset.spec_oriented(orientation))
    }

    pub open spec fn spec_clamp(self, v1: Coordinate, v2: Coordinate) -> Coordinate {
        Coordinate {
            x: spec_clamp(self.x as int, spec_min(v1.x as int, v2.x as int), spec_max(v1.x as int, v2.x as int)) as i32,
            y: spec_clamp(self.y as int, spec_min(v1.y as int, v2.y as int), spec_max(v1.y as int, v2.y as int)) as i32,
        }
    }

    /// The cell at `offset` from `location`, for an actor facing
    /// `orientation` (offsets are written as if facing North).
    pub fn as_offset(
        offset: Coordinate,
        location: Coordinate,
        orientation: AbsoluteDirection,
    ) -> (r: Coordinate)
        requires
            Coordinate::offset_fits(offset, location, orientation),
        ensures
            r == Coordinate::spec_as_offset(offset, location, orientation),
    {
        location + offset * orientation
    }

    /// Clamps each component into the box spanned by `v1` and `v2`.
    pub fn clamp(self, v1: Coordinate, v2: Coordinate) -> (r: Coordinate)
        ensures
            r == self.spec_clamp(v1, v2),
    {
        let minx = if v1.x <= v2.x { v1.x } else { v2.x };
        let maxx = if v1.x <= v2.x { v2.x } else { v1.x };
        let miny = if v1.y <= v2.y { v1.y } else { v2.y };
        let maxy = if v1.y <= v2.y { v2.y } else { v1.y };
        let x = if self.x < minx {
            minx
        } else if self.x > maxx {
            maxx
        } else {
            self.x
        };
        let y = if self.y < miny {
            miny
        } else if self.y > maxy {
            maxy
        } else {
            self.y
        };
        Coordinate { x, y }
    }
}

/// Component-wise sum.
impl core::ops::Add<Coordinate> for Coordinate {
    type Output = Coordinate;

    fn add(self, rhs: Coordinate) -> (r: Coordinate) {
        Coordinate { x: self.x + rhs.x, y: self.y + rhs.y }
    }
}

impl vstd::std_specs::ops::AddSpecImpl<Coordinate> for Coordinate {
    open spec fn obeys_add_spec() -> bool {
        true
    }

    open spec fn add_req(self, rhs: Coordinate) -> bool {
        sum_fits(self, rhs)
    }

    open spec fn add_spec(self, rhs: Coordinate) -> Coordinate {
        self.spec_plus(rhs)
    }
}

/// An offset given for a North-facing actor, turned to face the direction.
impl core::ops::Mul<AbsoluteDirection> for Coordinate {
    type Output = Coordinate;

    fn mul(self, rhs: AbsoluteDirection) -> (r: Coordinate) {
        match rhs {
            AbsoluteDirection::N => Coordinate { x: self.x, y: self.y },
            AbsoluteDirection::E => Coordinate { x: self.y, y: -self.x },
            AbsoluteDirection::S => Coordinate { x: -self.x, y: -self.y },
            AbsoluteDirection::W => Coordinate { x: -self.y, y: self.x },
        }
    }
}

impl vstd::std_specs::ops::MulSpecImpl<AbsoluteDirection> for Coordinate {
    open spec fn obeys_mul_spec() -> bool {
        true
    }

    open spec fn mul_req(self, rhs: AbsoluteDirection) -> bool {
        turnable(self, rhs)
    }

    open spec fn mul_spec(self, rhs: AbsoluteDirection) -> Coordinate {
        self.spec_oriented(rhs)
    }
}

/// Facing North leaves an offset as it is, and turning an offset by one
/// direction and then by another is turning it by their sum of quarter turns.
pub proof fn lemma_oriented_compose(c: Coordinate, a: AbsoluteDirection, b: AbsoluteDirection)
    requires
        negatable(c),
    ensures
        c.spec_oriented(AbsoluteDirection::N) == c,
        negatable(c.spec_oriented(a)),
        c.spec_oriented(a).spec_oriented(b) == c.spec_oriented(
            direction_from_index(a.index() + b.index()),
        ),
{
}

/// A clamped coordinate lies in the box spanned by the two corners, and a
/// coordinate already in the box is left as it is.
pub proof fn lemma_clamp_in_box(c: Coordinate, v1: Coordinate, v2: Coordinate)
    ensures
        spec_min(v1.x as int, v2.x as int) <= c.spec_clamp(v1, v2).x <= spec_max(v1.x as int, v2.x as int),
        spec_min(v1.y as int, v2.y as int) <= c.spec_clamp(v1, v2).y <= spec_max(v1.y as int, v2.y as int),
        (spec_min(v1.x as int, v2.x as int) <= c.x <= spec_max(v1.x as int, v2.x as int)
            && spec_min(v1.y as int, v2.y as int) <= c.y <= spec_max(v1.y as int, v2.y as int))
            ==> c.spec_clamp(v1, v2) == c,
{
}

} // verus!
