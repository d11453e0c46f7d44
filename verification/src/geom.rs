//! Grid geometry: coordinates and the four / eight step directions.

use vstd::prelude::*;

verus! {

/// Largest coordinate magnitude the world ever works with.  Level grids are
/// far smaller; the bound keeps every derived sum and product inside the
/// machine types.
pub const COORD_LIMIT: i32 = 0x2000_0000;

/// A position on a level grid, in cells.
#[derive(Clone, Copy, PartialEq, Eq, Structural, Debug)]
pub struct Coord {
    pub x: i32,
    pub y: i32,
}

impl Coord {
    pub fn new(x: i32, y: i32) -> (c: Coord)
        ensures
            c == (Coord { x, y }),
    {
        Coord { x, y }
    }

    /// Component-wise translation.
    pub fn plus(self, other: Coord) -> (c: Coord)
        requires
            i32::MIN <= self.x + other.x <= i32::MAX,
            i32::MIN <= self.y + other.y <= i32::MAX,
        ensures
            c.x == self.x + other.x,
            c.y == self.y + other.y,
    {
        Coord { x: self.x + other.x, y: self.y + other.y }
    }

    /// Component-wise difference.
    pub fn minus(self, other: Coord) -> (c: Coord)
        requires
            i32::MIN <= self.x - other.x <= i32::MAX,
            i32::MIN <= self.y - other.y <= i32::MAX,
        ensures
            c.x == self.x - other.x,
            c.y == self.y - other.y,
    {
        Coord { x: self.x - other.x, y: self.y - other.y }
    }

    /// The squared euclidean distance between two coordinates.
    pub open spec fn spec_distance2(self, other: Coord) -> int {
        (self.x - other.x) * (self.x - other.x) + (self.y - other.y) * (self.y - other.y)
    }

    /// Squared euclidean distance, used for alert radii and stairs placement.
    pub fn distance2(self, other: Coord) -> (d: u64)
        requires
            -COORD_LIMIT <= self.x <= COORD_LIMIT,
            -COORD_LIMIT <= self.y <= COORD_LIMIT,
            -COORD_LIMIT <= other.x <= COORD_LIMIT,
            -COORD_LIMIT <= other.y <= COORD_LIMIT,
        ensures
            d == self.spec_distance2(other),
    {
        let dx: i64 = self.x as i64 - other.x as i64;
        let dy: i64 = self.y as i64 - other.y as i64;
        proof {
            assert(0 <= dx * dx <= 0x1000_0000_0000_0000int && 0 <= dy * dy
                <= 0x1000_0000_0000_0000int) by (nonlinear_arith)
                requires
                    -0x4000_0000 <= dx <= 0x4000_0000,
                    -0x4000_0000 <= dy <= 0x4000_0000,
            ;
        }
        (dx * dx + dy * dy) as u64
    }

    /// The manhattan distance between two coordinates.
    pub open spec fn spec_manhattan_distance(self, other: Coord) -> int {
        abs_int(self.x - other.x) + abs_int(self.y - other.y)
    }

    /// Manhattan distance, used to scale wall-impact damage during knockback.
    pub fn manhattan_distance(self, other: Coord) -> (d: u32)
        requires
            -COORD_LIMIT <= self.x <= COORD_LIMIT,
            -COORD_LIMIT <= self.y <= COORD_LIMIT,
            -COORD_LIMIT <= other.x <= COORD_LIMIT,
            -COORD_LIMIT <= other.y <= COORD_LIMIT,
        ensures
            d == self.spec_manhattan_distance(other),
    {
        let dx: i64 = self.x as i64 - other.x as i64;
        let dy: i64 = self.y as i64 - other.y as i64;
        let ax: i64 = if dx < 0 { -dx } else { dx };
        let ay: i64 = if dy < 0 { -dy } else { dy };
        (ax + ay) as u32
    }
}

/// Absolute value over mathematical integers.
pub open spec fn abs_int(v: int) -> int {
    if v < 0 { -v } else { v }
}

/// One of the four axis-aligned step directions.
#[derive(Clone, Copy, PartialEq, Eq, Structural, Debug)]
pub enum CardinalDirection {
    North,
    East,
    South,
    West,
}

impl CardinalDirection {
    /// The unit translation of one step in this direction.  North is negative
    /// `y`, matching a screen-style grid with the origin at the top left.
    pub open spec fn spec_coord(self) -> Coord {
        match self {
            CardinalDirection::North => Coord { x: 0i32, y: -1i32 },
            CardinalDirection::East => Coord { x: 1i32, y: 0i32 },
            CardinalDirection::South => Coord { x: 0i32, y: 1i32 },
            CardinalDirection::West => Coord { x: -1i32, y: 0i32 },
        }
    }

    pub fn coord(self) -> (c: Coord)
        ensures
            c == self.spec_coord(),
    {
        match self {
            CardinalDirection::North => Coord { x: 0i32, y: -1i32 },
            CardinalDirection::East => Coord { x: 1i32, y: 0i32 },
            CardinalDirection::South => Coord { x: 0i32, y: 1i32 },
            CardinalDirection::West => Coord { x: -1i32, y: 0i32 },
        }
    }

    /// The same step as one of the eight compass directions.
    pub fn direction(self) -> (d: Direction)
        ensures
            d == self.spec_direction(),
    {
        match self {
            CardinalDirection::North => Direction::North,
            CardinalDirection::East => Direction::East,
            CardinalDirection::South => Direction::South,
            CardinalDirection::West => Direction::West,
        }
    }

    pub open spec fn spec_direction(self) -> Direction {
        match self {
            CardinalDirection::North => Direction::North,
            CardinalDirection::East => Direction::East,
            CardinalDirection::South => Direction::South,
            CardinalDirection::West => Direction::West,
        }
    }
}

/// One of the eight compass step directions.
#[derive(Clone, Copy, PartialEq, Eq, Structural, Debug)]
pub enum Direction {
    North,
    NorthEast,
    East,
    SouthEast,
    South,
    SouthWest,
    West,
    NorthWest,
}

impl Direction {
    /// The unit translation of one step in this direction.
    pub open spec fn spec_coord(self) -> Coord {
        match self {
            Direction::North => Coord { x: 0i32, y: -1i32 },
            Direction::NorthEast => Coord { x: 1i32, y: -1i32 },
            Direction::East => Coord { x: 1i32, y: 0i32 },
            Direction::SouthEast => Coord { x: 1i32, y: 1i32 },
            Direction::South => Coord { x: 0i32, y: 1i32 },
            Direction::SouthWest => Coord { x: -1i32, y: 1i32 },
            Direction::West => Coord { x: -1i32, y: 0i32 },
            Direction::NorthWest => Coord { x: -1i32, y: -1i32 },
        }
    }

    pub fn coord(self) -> (c: Coord)
        ensures
            c == self.spec_coord(),
    {
        match self {
            Direction::North => Coord { x: 0i32, y: -1i32 },
            Direction::NorthEast => Coord { x: 1i32, y: -1i32 },
            Direction::East => Coord { x: 1i32, y: 0i32 },
            Direction::SouthEast => Coord { x: 1i32, y: 1i32 },
            Direction::South => Coord { x: 0i32, y: 1i32 },
            Direction::SouthWest => Coord { x: -1i32, y: 1i32 },
            Direction::West => Coord { x: -1i32, y: 0i32 },
            Direction::NorthWest => Coord { x: -1i32, y: -1i32 },
        }
    }

    /// Whether the step is axis-aligned; a diagonal step covers √2 times the
    /// distance and is scheduled with a longer duration.
    pub open spec fn spec_is_cardinal(self) -> bool {
        match self {
            Direction::North | Direction::East | Direction::South | Direction::West => true,
            _ => false,
        }
    }

    pub fn is_cardinal(self) -> (b: bool)
        ensures
            b == self.spec_is_cardinal(),
    {
        match self {
            Direction::North | Direction::East | Direction::South | Direction::West => true,
            _ => false,
        }
    }
}

} // verus!
