//! Discrete line walking: unit steps that trace a straight path.
//!
//! A stepper carries the two axis magnitudes of a target displacement and an
//! error accumulator; each step moves one cell along the major axis and,
//! when the accumulator rolls over, one cell along the minor axis as well,
//! so the walk follows the displacement's direction.

use crate::geom::{Coord, Direction};
use vstd::prelude::*;

verus! {

/// Sign of an integer, as `-1`, `0` or `1`.
pub open spec fn spec_sign(v: int) -> int {
    if v > 0 {
        1
    } else if v < 0 {
        -1
    } else {
        0
    }
}

/// Absolute value of a coordinate component.
pub open spec fn spec_abs(v: int) -> int {
    if v < 0 {
        -v
    } else {
        v
    }
}

impl Direction {
    /// The direction of a unit displacement.
    pub fn from_unit(dx: i32, dy: i32) -> (d: Direction)
        requires
            -1 <= dx <= 1,
            -1 <= dy <= 1,
            !(dx == 0 && dy == 0),
        ensures
            d.spec_coord() == (Coord { x: dx, y: dy }),
    {
        if dx == 0 {
            if dy < 0 {
                Direction::North
            } else {
                Direction::South
            }
        } else if dx > 0 {
            if dy < 0 {
                Direction::NorthEast
            } else if dy == 0 {
                Direction::East
            } else {
                Direction::SouthEast
            }
        } else {
            if dy < 0 {
                Direction::NorthWest
            } else if dy == 0 {
                Direction::West
            } else {
                Direction::SouthWest
            }
        }
    }
}

/// Walks unit steps along a fixed displacement, repeating forever.
#[derive(Clone, Copy, PartialEq, Eq, Structural, Debug)]
pub struct LineStepper {
    /// Sign of the displacement's x component.
    pub x_sign: i32,
    /// Sign of the displacement's y component.
    pub y_sign: i32,
    /// Whether x is the major axis.
    pub major_axis_x: bool,
    /// Magnitude of the major axis component; at least 1.
    pub major_abs: u32,
    /// Magnitude of the minor axis component; at most `major_abs`.
    pub minor_abs: u32,
    /// Bresenham-style error accumulator, always below `major_abs`.
    pub accum: u32,
}

impl LineStepper {
    pub open spec fn wf(self) -> bool {
        &&& 1 <= self.major_abs
        &&& self.minor_abs <= self.major_abs
        &&& self.accum < self.major_abs
        &&& -1 <= self.x_sign <= 1
        &&& -1 <= self.y_sign <= 1
        &&& (if self.major_axis_x {
            self.x_sign != 0 && (self.minor_abs == 0 <==> self.y_sign == 0)
        } else {
            self.y_sign != 0 && (self.minor_abs == 0 <==> self.x_sign == 0)
        })
    }

    /// The stepper of a non-zero displacement: fresh accumulator, axes split
    /// by magnitude.
    pub fn new(delta: Coord) -> (s: LineStepper)
        requires
            !(delta.x == 0 && delta.y == 0),
        ensures
            s.wf(),
            s.x_sign == spec_sign(delta.x as int),
            s.y_sign == spec_sign(delta.y as int),
            s.major_axis_x == (spec_abs(delta.x as int) >= spec_abs(delta.y as int)),
            s.major_abs == if s.major_axis_x {
                spec_abs(delta.x as int)
            } else {
                spec_abs(delta.y as int)
            },
            s.minor_abs == if s.major_axis_x {
                spec_abs(delta.y as int)
            } else {
                spec_abs(delta.x as int)
            },
            s.accum == 0,
    {
        let ax: u32 = if delta.x < 0 {
            (-(delta.x as i64)) as u32
        } else {
            delta.x as u32
        };
        let ay: u32 = if delta.y < 0 {
            (-(delta.y as i64)) as u32
        } else {
            delta.y as u32
        };
        let x_sign: i32 = if delta.x > 0 {
            1
        } else if delta.x < 0 {
            -1
        } else {
            0
        };
        let y_sign: i32 = if delta.y > 0 {
            1
        } else if delta.y < 0 {
            -1
        } else {
            0
        };
        if ax >= ay {
            LineStepper { x_sign, y_sign, major_axis_x: true, major_abs: ax, minor_abs: ay, accum: 0 }
        } else {
            LineStepper {
                x_sign,
                y_sign,
                major_axis_x: false,
                major_abs: ay,
                minor_abs: ax,
                accum: 0,
            }
        }
    }

    /// The length of one full traversal of the displacement, in steps.
    pub open spec fn spec_traversal_steps(self) -> int {
        self.major_abs as int
    }

    /// Whether the next step is a diagonal one.
    pub open spec fn spec_next_is_diagonal(self) -> bool {
        self.accum + self.minor_abs >= self.major_abs
    }

    /// The direction the next step takes.
    pub open spec fn spec_next_dir(self) -> Direction {
        spec_step_dir(self, self.spec_next_is_diagonal())
    }

    /// The accumulator after the next step.
    pub open spec fn spec_next_accum(self) -> int {
        if self.spec_next_is_diagonal() {
            self.accum + self.minor_abs - self.major_abs
        } else {
            self.accum + self.minor_abs
        }
    }

    /// One step: returns its direction and advances the accumulator.
    /// A stepper whose displacement is a cardinal unit multiple always steps
    /// in that cardinal direction.
    pub fn next_step(&mut self) -> (d: Direction)
        requires
            old(self).wf(),
        ensures
            final(self).wf(),
            d == old(self).spec_next_dir(),
            final(self).accum == old(self).spec_next_accum(),
            final(self).x_sign == old(self).x_sign,
            final(self).y_sign == old(self).y_sign,
            final(self).major_axis_x == old(self).major_axis_x,
            final(self).major_abs == old(self).major_abs,
            final(self).minor_abs == old(self).minor_abs,
            old(self).minor_abs == 0 ==> d.spec_is_cardinal(),
    {
        let sum: u64 = self.accum as u64 + self.minor_abs as u64;
        let diagonal = sum >= self.major_abs as u64;
        if diagonal {
            self.accum = (sum - self.major_abs as u64) as u32;
        } else {
            self.accum = sum as u32;
        }
        let d = if diagonal {
            Direction::from_unit(self.x_sign, self.y_sign)
        } else if self.major_axis_x {
            Direction::from_unit(self.x_sign, 0)
        } else {
            Direction::from_unit(0, self.y_sign)
        };
        proof {
            assert(d.spec_coord() == spec_step_dir(*old(self), diagonal).spec_coord());
            lemma_unit_dir_determined(d, spec_step_dir(*old(self), diagonal));
        }
        d
    }
}

/// The direction of a step: the diagonal of both signs, or the major axis
/// unit alone.
pub open spec fn spec_step_dir(s: LineStepper, diagonal: bool) -> Direction {
    if diagonal && s.minor_abs != 0 {
        spec_unit_dir(s.x_sign as int, s.y_sign as int)
    } else if s.major_axis_x {
        spec_unit_dir(s.x_sign as int, 0)
    } else {
        spec_unit_dir(0, s.y_sign as int)
    }
}

/// The direction of a unit displacement.
pub open spec fn spec_unit_dir(dx: int, dy: int) -> Direction {
    if dx == 0 && dy < 0 {
        Direction::North
    } else if dx > 0 && dy < 0 {
        Direction::NorthEast
    } else if dx > 0 && dy == 0 {
        Direction::East
    } else if dx > 0 && dy > 0 {
        Direction::SouthEast
    } else if dx == 0 && dy > 0 {
        Direction::South
    } else if dx < 0 && dy > 0 {
        Direction::SouthWest
    } else if dx < 0 && dy == 0 {
        Direction::West
    } else {
        Direction::NorthWest
    }
}

/// Two directions with equal unit displacements are the same direction.
proof fn lemma_unit_dir_determined(a: Direction, b: Direction)
    requires
        a.spec_coord() == b.spec_coord(),
    ensures
        a == b,
{
}

} // verus!
