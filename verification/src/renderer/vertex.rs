//! Vertices of a chunk mesh, in whole numbers.
//!
//! A voxel with world coordinates `(x, y, z)` is the unit cube centred on that
//! point, so its corners lie at half-integer coordinates. Positions are
//! therefore kept in half-voxel units: the corner `(x - 0.5, y + 0.5, z + 0.5)`
//! is stored as `(2x - 1, 2y + 1, 2z + 1)`. Colour channels are kept in tenths
//! of full intensity.
use vstd::prelude::*;

verus! {

/// The six axis-aligned directions a voxel face can look in, in the order in
/// which the faces of one voxel are emitted.
#[derive(Clone, Copy, Debug, PartialEq, Eq)]
pub enum Direction {
    PosZ,
    NegZ,
    PosY,
    NegY,
    PosX,
    NegX,
}

/// Classification of a voxel by its height, which selects its colour.
#[derive(Clone, Copy, Debug, PartialEq, Eq)]
pub enum HeightBand {
    Low,
    Mid,
    High,
}

/// One vertex of a triangle list.
#[derive(Clone, Copy, Debug, PartialEq, Eq)]
pub struct Vertex {
    /// World position, in half-voxel units.
    pub position: (i64, i64, i64),
    /// Red, green and blue, in tenths of full intensity.
    pub color: (u8, u8, u8),
    /// Outward unit normal of the face the vertex belongs to.
    pub normal: (i8, i8, i8),
}

impl Direction {
    /// The unit vector pointing in this direction.
    pub open spec fn unit(self) -> (int, int, int) {
        match self {
            Direction::PosZ => (0, 0, 1),
            Direction::NegZ => (0, 0, -1),
            Direction::PosY => (0, 1, 0),
            Direction::NegY => (0, -1, 0),
            Direction::PosX => (1, 0, 0),
            Direction::NegX => (-1, 0, 0),
        }
    }

    /// The direction emitted at place `i` among the six faces of a voxel.
    pub open spec fn at(i: int) -> Direction {
        if i == 0 {
            Direction::PosZ
        } else if i == 1 {
            Direction::NegZ
        } else if i == 2 {
            Direction::PosY
        } else if i == 3 {
            Direction::NegY
        } else if i == 4 {
            Direction::PosX
        } else {
            Direction::NegX
        }
    }

    /// The outward normal of a face looking in this direction.
    pub fn normal(self) -> (n: (i8, i8, i8))
        ensures
            (n.0 as int, n.1 as int, n.2 as int) == self.unit(),
    {
        match self {
            Direction::PosZ => (0, 0, 1),
            Direction::NegZ => (0, 0, -1),
            Direction::PosY => (0, 1, 0),
            Direction::NegY => (0, -1, 0),
            Direction::PosX => (1, 0, 0),
            Direction::NegX => (-1, 0, 0),
        }
    }
}

impl HeightBand {
    /// The band of a voxel at height `y`: below 5 low, below 12 mid, else high.
    pub open spec fn of(y: int) -> HeightBand {
        if y < 5 {
            HeightBand::Low
        } else if y < 12 {
            HeightBand::Mid
        } else {
            HeightBand::High
        }
    }

    /// The colour of the band, in tenths: sand, grass and stone.
    pub open spec fn tenths(self) -> (u8, u8, u8) {
        match self {
            HeightBand::Low => (7u8, 7u8, 3u8),
            HeightBand::Mid => (3u8, 5u8, 2u8),
            HeightBand::High => (5u8, 5u8, 5u8),
        }
    }

    /// Classifies the height `y`.
    pub fn classify(y: i32) -> (band: HeightBand)
        ensures
            band == HeightBand::of(y as int),
    {
        if y < 5 {
            HeightBand::Low
        } else if y < 12 {
            HeightBand::Mid
        } else {
            HeightBand::High
        }
    }

    /// The colour of the band, in tenths of full intensity.
    pub fn color(self) -> (c: (u8, u8, u8))
        ensures
            c == self.tenths(),
    {
        match self {
            HeightBand::Low => (7, 7, 3),
            HeightBand::Mid => (3, 5, 2),
            HeightBand::High => (5, 5, 5),
        }
    }
}

} // verus!
