use vstd::prelude::*;

verus! {

/// A position on the dungeon grid.
#[derive(Debug, Copy, Clone, PartialEq, Eq, Structural, Hash, PartialOrd, Ord)]
pub struct Coords {
    pub x: u32,
    pub y: u32,
}

/// One of the four grid directions; north is towards smaller `y`.
#[derive(Debug, Copy, Clone, PartialEq, Eq, Structural)]
pub enum MoveDirection {
    North,
    East,
    South,
    West,
}

/// Whether one step from `c` in direction `d` stays within `u32` coordinates.
pub open spec fn can_move(c: Coords, d: MoveDirection) -> bool {
    match d {
        MoveDirection::North => c.y > 0,
        MoveDirection::East => c.x < u32::MAX,
        MoveDirection::South => c.y < u32::MAX,
        MoveDirection::West => c.x > 0,
    }
}

/// The position one step from `c` in direction `d`.
pub open spec fn moved(c: Coords, d: MoveDirection) -> Coords {
    match d {
        MoveDirection::North => Coords { x: c.x, y: (c.y - 1) as u32 },
        MoveDirection::East => Coords { x: (c.x + 1) as u32, y: c.y },
        MoveDirection::South => Coords { x: c.x, y: (c.y + 1) as u32 },
        MoveDirection::West => Coords { x: (c.x - 1) as u32, y: c.y },
    }
}

/// The number of grid steps between `a` and `b` when every edge is open.
pub open spec fn manhattan(a: Coords, b: Coords) -> nat {
    (if a.x >= b.x { a.x - b.x } else { b.x - a.x }) as nat + (if a.y >= b.y {
        a.y - b.y
    } else {
        b.y - a.y
    }) as nat
}

impl Coords {
    pub fn move_direction(&self, direction: MoveDirection) -> (r: Self)
        requires
            can_move(*self, direction),
        ensures
            r == moved(*self, direction),
    {
        match direction {
            MoveDirection::North => Self { x: self.x, y: self.y - 1 },
            MoveDirection::East => Self { x: self.x + 1, y: self.y },
            MoveDirection::South => Self { x: self.x, y: self.y + 1 },
            MoveDirection::West => Self { x: self.x - 1, y: self.y },
        }
    }
}

impl From<(u32, u32)> for Coords {
    fn from(value: (u32, u32)) -> (r: Self) {
        Self { x: value.0, y: value.1 }
    }
}

impl vstd::std_specs::convert::FromSpecImpl<(u32, u32)> for Coords {
    open spec fn obeys_from_spec() -> bool {
        true
    }

    open spec fn from_spec(v: (u32, u32)) -> Self {
        Coords { x: v.0, y: v.1 }
    }
}

} // verus!
