//! Block identifiers, the six faces of a cube and the three axes.

use vstd::prelude::*;

verus! {

/// The numeric id of empty space.
pub const AIR_BLOCK_ID: u16 = 0;

/// Represents an X/Y/Z axis
#[derive(Debug, Clone, Copy, PartialEq, Eq, Structural, Hash)]
pub enum Axis {
    /// X axis
    X,
    /// Y axis
    Y,
    /// Z axis
    Z,
}

/// One of the six faces of a block, or of a cube-shaped structure.
#[derive(Debug, Clone, Copy, PartialEq, Eq, Structural, Hash)]
pub enum BlockFace {
    /// +y
    Top,
    /// -y
    Bottom,
    /// +z
    Front,
    /// -z
    Back,
    /// +x
    Right,
    /// -x
    Left,
}

/// The axis a face is perpendicular to.
pub open spec fn axis_of(face: BlockFace) -> Axis {
    match face {
        BlockFace::Top | BlockFace::Bottom => Axis::Y,
        BlockFace::Front | BlockFace::Back => Axis::Z,
        BlockFace::Right | BlockFace::Left => Axis::X,
    }
}

/// Whether a face points toward the positive end of its axis.
pub open spec fn is_positive(face: BlockFace) -> bool {
    match face {
        BlockFace::Top | BlockFace::Front | BlockFace::Right => true,
        _ => false,
    }
}

/// The component of `(x, y, z)` along `axis`.
pub open spec fn coord_on(axis: Axis, x: int, y: int, z: int) -> int {
    match axis {
        Axis::X => x,
        Axis::Y => y,
        Axis::Z => z,
    }
}

/// How far "up" a coordinate `c` on the face's axis is, measured from the
/// opposite side of a cube of side `s`.
pub open spec fn height_toward(face: BlockFace, c: int, s: int) -> int {
    if is_positive(face) {
        c
    } else {
        s - c
    }
}

impl BlockFace {
    /// The axis this face is perpendicular to.
    pub fn axis(&self) -> (r: Axis)
        ensures
            r == axis_of(*self),
    {
        match self {
            BlockFace::Top | BlockFace::Bottom => Axis::Y,
            BlockFace::Front | BlockFace::Back => Axis::Z,
            BlockFace::Right | BlockFace::Left => Axis::X,
        }
    }

    /// The face on the other side of the same axis.
    pub fn opposite(&self) -> (r: BlockFace)
        ensures
            axis_of(r) == axis_of(*self),
            is_positive(r) != is_positive(*self),
    {
        match self {
            BlockFace::Top => BlockFace::Bottom,
            BlockFace::Bottom => BlockFace::Top,
            BlockFace::Front => BlockFace::Back,
            BlockFace::Back => BlockFace::Front,
            BlockFace::Right => BlockFace::Left,
            BlockFace::Left => BlockFace::Right,
        }
    }
}

/// The height of coordinate `c` (on this face's axis) above the far side of a cube of side `s`.
pub fn height_toward_face(face: BlockFace, c: usize, s: usize) -> (r: usize)
    requires
        c <= s,
    ensures
        r == height_toward(face, c as int, s as int),
{
    match face {
        BlockFace::Top | BlockFace::Front | BlockFace::Right => c,
        _ => s - c,
    }
}

} // verus!
