//! Where a block or chunk lies on a cube-shaped planet: which face it belongs
//! to, and which faces a chunk touches.

use vstd::prelude::*;
use crate::block::{Axis, BlockFace};
use crate::chunk::CHUNK_DIMENSIONS;

verus! {

/// `|2c - d|`: twice the distance of `c` from the middle of `0..d`.
pub open spec fn doubled_offset(c: int, d: int) -> int {
    if 2 * c >= d {
        2 * c - d
    } else {
        d - 2 * c
    }
}

/// The face of a `w x h x l` cuboid whose direction from the center is
/// strongest at block `(x, y, z)`. Ties go to y, then x, then z, and to the
/// positive side.
#[verifier::opaque]
pub open spec fn planet_face_spec(x: int, y: int, z: int, w: int, h: int, l: int) -> BlockFace {
    let ax = doubled_offset(x, w);
    let ay = doubled_offset(y, h);
    let az = doubled_offset(z, l);
    if ay >= ax && ay >= az {
        if 2 * y >= h {
            BlockFace::Top
        } else {
            BlockFace::Bottom
        }
    } else if ax >= az {
        if 2 * x >= w {
            BlockFace::Right
        } else {
            BlockFace::Left
        }
    } else if 2 * z >= l {
        BlockFace::Front
    } else {
        BlockFace::Back
    }
}

fn doubled_offset_exec(c: usize, d: usize) -> (r: usize)
    requires
        c <= d,
        d <= usize::MAX / 2,
    ensures
        r == doubled_offset(c as int, d as int),
{
    if 2 * c >= d {
        2 * c - d
    } else {
        d - 2 * c
    }
}

/// Gets the face of a planet of the given dimensions that block `(bx, by, bz)` is on.
pub fn planet_face(bx: usize, by: usize, bz: usize, s_width: usize, s_height: usize, s_length: usize) -> (r: BlockFace)
    requires
        bx <= s_width,
        by <= s_height,
        bz <= s_length,
        s_width <= usize::MAX / 2,
        s_height <= usize::MAX / 2,
        s_length <= usize::MAX / 2,
    ensures
        r == planet_face_spec(bx as int, by as int, bz as int, s_width as int, s_height as int, s_length as int),
{
    reveal(planet_face_spec);
    let ax = doubled_offset_exec(bx, s_width);
    let ay = doubled_offset_exec(by, s_height);
    let az = doubled_offset_exec(bz, s_length);
    if ay >= ax && ay >= az {
        if 2 * by >= s_height {
            BlockFace::Top
        } else {
            BlockFace::Bottom
        }
    } else if ax >= az {
        if 2 * bx >= s_width {
            BlockFace::Right
        } else {
            BlockFace::Left
        }
    } else if 2 * bz >= s_length {
        BlockFace::Front
    } else {
        BlockFace::Back
    }
}

/// The face that corner `i` (`0..8`, x fastest) of the chunk whose first
/// block is `(sx, sy, sz)` lies on, in a cube of side `s`.
pub open spec fn corner_face(sx: int, sy: int, sz: int, s: int, i: int) -> BlockFace {
    planet_face_spec(
        sx + (i % 2) * CHUNK_DIMENSIONS,
        sy + ((i / 2) % 2) * CHUNK_DIMENSIONS,
        sz + (i / 4) * CHUNK_DIMENSIONS,
        s,
        s,
        s,
    )
}

/// Whether one of the eight corners of the chunk whose first block is
/// `(sx, sy, sz)` lies on `face` of a cube of side `s`.
pub open spec fn corner_on_face(face: BlockFace, sx: int, sy: int, sz: int, s: int) -> bool {
    exists|i: int| 0 <= i < 8 && #[trigger] corner_face(sx, sy, sz, s, i) == face
}

/// The face on `axis` that a chunk touches: the positive one wins where the
/// chunk reaches both (only at the very middle of the planet).
pub open spec fn touched_face(axis: Axis, sx: int, sy: int, sz: int, s: int) -> Option<BlockFace> {
    let (pos, neg) = match axis {
        Axis::X => (BlockFace::Right, BlockFace::Left),
        Axis::Y => (BlockFace::Top, BlockFace::Bottom),
        Axis::Z => (BlockFace::Front, BlockFace::Back),
    };
    if corner_on_face(pos, sx, sy, sz, s) {
        Some(pos)
    } else if corner_on_face(neg, sx, sy, sz, s) {
        Some(neg)
    } else {
        None
    }
}

/// The faces of a cube-shaped planet that a chunk touches, at most one per axis.
#[derive(Debug, Clone, Copy, PartialEq, Eq, Structural)]
pub struct ChunkFaces {
    /// The face on the x axis, if any.
    pub x: Option<BlockFace>,
    /// The face on the y axis, if any.
    pub y: Option<BlockFace>,
    /// The face on the z axis, if any.
    pub z: Option<BlockFace>,
}

/// The faces, one per axis at most, of a cube of side `s_dimensions` that the
/// chunk whose first block is `(sx, sy, sz)` touches.
pub fn chunk_faces(sx: usize, sy: usize, sz: usize, s_dimensions: usize) -> (r: ChunkFaces)
    requires
        sx + CHUNK_DIMENSIONS <= s_dimensions,
        sy + CHUNK_DIMENSIONS <= s_dimensions,
        sz + CHUNK_DIMENSIONS <= s_dimensions,
        s_dimensions <= usize::MAX / 2,
    ensures
        r.x == touched_face(Axis::X, sx as int, sy as int, sz as int, s_dimensions as int),
        r.y == touched_face(Axis::Y, sx as int, sy as int, sz as int, s_dimensions as int),
        r.z == touched_face(Axis::Z, sx as int, sy as int, sz as int, s_dimensions as int),
{
    let ghost s = s_dimensions as int;
    let d = CHUNK_DIMENSIONS;
    let n = s_dimensions;
    let corners: [BlockFace; 8] = [
        planet_face(sx, sy, sz, n, n, n),
        planet_face(sx + d, sy, sz, n, n, n),
        planet_face(sx, sy + d, sz, n, n, n),
        planet_face(sx + d, sy + d, sz, n, n, n),
        planet_face(sx, sy, sz + d, n, n, n),
        planet_face(sx + d, sy, sz + d, n, n, n),
        planet_face(sx, sy + d, sz + d, n, n, n),
        planet_face(sx + d, sy + d, sz + d, n, n, n),
    ];
    proof {
        assert(corners@[0] == corner_face(sx as int, sy as int, sz as int, s, 0));
        assert(corners@[1] == corner_face(sx as int, sy as int, sz as int, s, 1));
        assert(corners@[2] == corner_face(sx as int, sy as int, sz as int, s, 2));
        assert(corners@[3] == corner_face(sx as int, sy as int, sz as int, s, 3));
        assert(corners@[4] == corner_face(sx as int, sy as int, sz as int, s, 4));
        assert(corners@[5] == corner_face(sx as int, sy as int, sz as int, s, 5));
        assert(corners@[6] == corner_face(sx as int, sy as int, sz as int, s, 6));
        assert(corners@[7] == corner_face(sx as int, sy as int, sz as int, s, 7));
    }
    let x = if any_is(&corners, BlockFace::Right) {
        Some(BlockFace::Right)
    } else if any_is(&corners, BlockFace::Left) {
        Some(BlockFace::Left)
    } else {
        None
    };
    let y = if any_is(&corners, BlockFace::Top) {
        Some(BlockFace::Top)
    } else if any_is(&corners, BlockFace::Bottom) {
        Some(BlockFace::Bottom)
    } else {
        None
    };
    let z = if any_is(&corners, BlockFace::Front) {
        Some(BlockFace::Front)
    } else if any_is(&corners, BlockFace::Back) {
        Some(BlockFace::Back)
    } else {
        None
    };
    ChunkFaces { x, y, z }
}

fn any_is(faces: &[BlockFace; 8], f: BlockFace) -> (r: bool)
    ensures
        r == exists|i: int| 0 <= i < 8 && #[trigger] faces@[i] == f,
{
    let mut i: usize = 0;
    while i < 8
        invariant
            i <= 8,
            forall|j: int| 0 <= j < i ==> faces@[j] != f,
        decreases 8 - i,
    {
        if faces[i] == f {
            return true;
        }
        i += 1;
    }
    false
}

} // verus!
