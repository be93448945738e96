//! Filling a planet chunk with terrain from the surface heights of the faces
//! it touches: on one face, on an edge where two faces meet, or at a corner
//! where three meet.
//!
//! Surface heights come in per-face tables of `CHUNK_DIMENSIONS^2` columns.
//! A face's column `(a, b)` holds the top height sampled at
//! `column_seed(face, site, a, b, middle_air_start)`, where `a` and `b` are
//! the chunk-local coordinates on the two axes other than the face's, in x, y,
//! z order.

use vstd::prelude::*;
use crate::biosphere::{block_for_depth, min3, BlockRanges};
use crate::block::{axis_of, coord_on, height_toward, height_toward_face, is_positive, Axis, BlockFace};
use crate::chunk::{filled_from, in_chunk, lemma_filled_from_agreeing, Chunk, CHUNK_DIMENSIONS};
use crate::planet::{chunk_faces, planet_face, planet_face_spec, touched_face, ChunkFaces};

verus! {

/// The number of columns in a face's height table.
pub const N_COLUMNS: usize = 1024;

/// Where a chunk sits in a cube-shaped planet: the absolute coordinate of its
/// first block and the planet's side, in blocks.
#[derive(Debug, Clone, Copy, PartialEq, Eq, Structural)]
pub struct ChunkSite {
    /// x of the chunk's first block.
    pub sx: usize,
    /// y of the chunk's first block.
    pub sy: usize,
    /// z of the chunk's first block.
    pub sz: usize,
    /// The planet's side, in blocks.
    pub s_dimensions: usize,
}

impl ChunkSite {
    /// The chunk lies inside the planet, and the planet is small enough for
    /// doubled coordinates to fit a `usize`.
    pub open spec fn wf(&self) -> bool {
        &&& self.sx + CHUNK_DIMENSIONS <= self.s_dimensions
        &&& self.sy + CHUNK_DIMENSIONS <= self.s_dimensions
        &&& self.sz + CHUNK_DIMENSIONS <= self.s_dimensions
        &&& self.s_dimensions <= usize::MAX / 2
    }

    /// The absolute coordinate, on `axis`, of chunk-local coordinate `c`.
    pub open spec fn abs_on(&self, axis: Axis, c: int) -> int {
        coord_on(axis, self.sx as int, self.sy as int, self.sz as int) + c
    }

    /// How high chunk-local coordinate `c` (on `face`'s axis) stands toward `face`.
    pub open spec fn height_of(&self, face: BlockFace, c: int) -> int {
        height_toward(face, self.abs_on(axis_of(face), c), self.s_dimensions as int)
    }
}

/// The column of a face's height table that chunk-local `(x, y, z)` falls in,
/// for a face on `axis`.
pub open spec fn col_index(axis: Axis, x: int, y: int, z: int) -> int {
    match axis {
        Axis::X => y * 32 + z,
        Axis::Y => x * 32 + z,
        Axis::Z => x * 32 + y,
    }
}

/// The smaller of two integers.
pub open spec fn lesser(a: int, b: int) -> int {
    if a <= b {
        a
    } else {
        b
    }
}

/// The larger of two integers.
pub open spec fn greater(a: int, b: int) -> int {
    if a >= b {
        a
    } else {
        b
    }
}

/// The absolute coordinate sampled for column `(a, b)` of `face`'s height
/// table: the face's own axis is fixed at `middle_air_start` (or as far from
/// the other side), the two others are the chunk's first block plus `a`, `b`.
pub open spec fn column_seed_spec(face: BlockFace, site: ChunkSite, a: int, b: int, middle_air_start: int) -> (int, int, int) {
    let level = if is_positive(face) {
        middle_air_start
    } else {
        site.s_dimensions - middle_air_start
    };
    match axis_of(face) {
        Axis::X => (level, site.sy + a, site.sz + b),
        Axis::Y => (site.sx + a, level, site.sz + b),
        Axis::Z => (site.sx + a, site.sy + b, level),
    }
}

/// The coordinate at which to sample the surface height of column `(a, b)` of `face`.
pub fn column_seed(face: BlockFace, site: ChunkSite, a: usize, b: usize, middle_air_start: usize) -> (r: (usize, usize, usize))
    requires
        site.wf(),
        a < CHUNK_DIMENSIONS,
        b < CHUNK_DIMENSIONS,
        middle_air_start <= site.s_dimensions,
    ensures
        (r.0 as int, r.1 as int, r.2 as int) == column_seed_spec(face, site, a as int, b as int, middle_air_start as int),
{
    let level = match face {
        BlockFace::Top | BlockFace::Front | BlockFace::Right => middle_air_start,
        _ => site.s_dimensions - middle_air_start,
    };
    match face.axis() {
        Axis::X => (level, site.sy + a, site.sz + b),
        Axis::Y => (site.sx + a, level, site.sz + b),
        Axis::Z => (site.sx + a, site.sy + b, level),
    }
}

/// Where the air above the terrain starts on a planet of side `s_dimensions`:
/// five chunks below its outer surface.
pub fn middle_air_start(s_dimensions: usize) -> (r: usize)
    requires
        s_dimensions >= 5 * CHUNK_DIMENSIONS,
    ensures
        r == s_dimensions - 5 * CHUNK_DIMENSIONS,
{
    s_dimensions - CHUNK_DIMENSIONS * 5
}

fn coord_of(axis: Axis, x: usize, y: usize, z: usize) -> (r: usize)
    ensures
        r == coord_on(axis, x as int, y as int, z as int),
{
    match axis {
        Axis::X => x,
        Axis::Y => y,
        Axis::Z => z,
    }
}

fn col(axis: Axis, x: usize, y: usize, z: usize) -> (r: usize)
    requires
        in_chunk(x as int, y as int, z as int),
    ensures
        r == col_index(axis, x as int, y as int, z as int),
        r < N_COLUMNS,
{
    match axis {
        Axis::X => y * 32 + z,
        Axis::Y => x * 32 + z,
        Axis::Z => x * 32 + y,
    }
}

/// The height toward `face` of chunk-local coordinate `c` on its axis.
fn height_in(site: ChunkSite, face: BlockFace, c: usize) -> (r: usize)
    requires
        site.wf(),
        c < CHUNK_DIMENSIONS,
    ensures
        r == site.height_of(face, c as int),
        r <= site.s_dimensions,
{
    let origin = coord_of(face.axis(), site.sx, site.sy, site.sz);
    height_toward_face(face, origin + c, site.s_dimensions)
}

// ---------------------------------------------------------------------------
// One face.

/// What a chunk on the single face `up` holds at chunk-local `(x, y, z)`: the
/// column's top height comes from `heights`; a voxel at or below it gets the
/// block for its depth below the top, with `up` as its "up" face.
pub open spec fn face_voxel(
    up: BlockFace,
    site: ChunkSite,
    heights: Seq<usize>,
    ranges: Seq<(u16, usize)>,
    x: int,
    y: int,
    z: int,
) -> Option<(u16, BlockFace)> {
    let top = heights[col_index(axis_of(up), x, y, z)] as int;
    let actual = site.height_of(up, coord_on(axis_of(up), x, y, z));
    if actual <= top {
        Some((block_for_depth(ranges, top - actual), up))
    } else {
        None
    }
}

fn face_voxel_exec(
    up: BlockFace,
    site: ChunkSite,
    heights: &Vec<usize>,
    ranges: &BlockRanges,
    x: usize,
    y: usize,
    z: usize,
) -> (r: Option<(u16, BlockFace)>)
    requires
        site.wf(),
        heights@.len() == N_COLUMNS,
        in_chunk(x as int, y as int, z as int),
    ensures
        r == face_voxel(up, site, heights@, ranges@, x as int, y as int, z as int),
{
    let axis = up.axis();
    let top = heights[col(axis, x, y, z)];
    let actual = height_in(site, up, coord_of(axis, x, y, z));
    if actual <= top {
        Some((ranges.face_block(top - actual), up))
    } else {
        None
    }
}

/// Fills a chunk that lies on the single planet face `up`.
pub fn do_face(
    site: ChunkSite,
    heights: &Vec<usize>,
    block_ranges: &BlockRanges,
    chunk: &mut Chunk,
    up: BlockFace,
)
    requires
        site.wf(),
        heights@.len() == N_COLUMNS,
        old(chunk).wf(),
    ensures
        filled_from(
            *old(chunk),
            *final(chunk),
            |x: int, y: int, z: int| face_voxel(up, site, heights@, block_ranges@, x, y, z),
        ),
{
    let f = |x: usize, y: usize, z: usize| -> (r: Option<(u16, BlockFace)>)
        requires
            in_chunk(x as int, y as int, z as int),
        ensures
            r == face_voxel(up, site, heights@, block_ranges@, x as int, y as int, z as int),
        { face_voxel_exec(up, site, heights, block_ranges, x, y, z) };
    chunk.fill_with(
        f,
        Ghost(|x: int, y: int, z: int| face_voxel(up, site, heights@, block_ranges@, x, y, z)),
    );
}

// ---------------------------------------------------------------------------
// An edge, where the faces `j_up` and `k_up` meet.
//
// Chunk-local coordinates are named by axis: `j` on `j_up`'s axis, `k` on
// `k_up`'s, `i` on the remaining one.

/// The axis that is neither `a` nor `b`.
pub open spec fn third_axis(a: Axis, b: Axis) -> Axis {
    if a != Axis::X && b != Axis::X {
        Axis::X
    } else if a != Axis::Y && b != Axis::Y {
        Axis::Y
    } else {
        Axis::Z
    }
}

/// The chunk-local `(x, y, z)` with `j` on axis `aj`, `k` on axis `ak` and `i`
/// on the third.
pub open spec fn place(aj: Axis, ak: Axis, i: int, j: int, k: int) -> (int, int, int) {
    let pick = |axis: Axis|
        if axis == aj {
            j
        } else if axis == ak {
            k
        } else {
            i
        };
    (pick(Axis::X), pick(Axis::Y), pick(Axis::Z))
}

/// The column of a table on axis `axis` for the voxel placed at `(i, j, k)`.
pub open spec fn placed_col(axis: Axis, aj: Axis, ak: Axis, i: int, j: int, k: int) -> int {
    let p = place(aj, ak, i, j, k);
    col_index(axis, p.0, p.1, p.2)
}

/// `j_up`'s top height over `(i, k)`, never below the 45 toward `k_up`.
pub open spec fn edge_j_cache(site: ChunkSite, j_up: BlockFace, k_up: BlockFace, j_heights: Seq<usize>, i: int, k: int) -> int {
    greater(
        j_heights[placed_col(axis_of(j_up), axis_of(j_up), axis_of(k_up), i, 0, k)] as int,
        site.height_of(k_up, k),
    )
}

/// `k_up`'s top height over `(i, j)`, never below the 45 toward `j_up`.
pub open spec fn edge_k_raised(site: ChunkSite, j_up: BlockFace, k_up: BlockFace, k_heights: Seq<usize>, i: int, j: int) -> int {
    greater(
        k_heights[placed_col(axis_of(k_up), axis_of(j_up), axis_of(k_up), i, j, 0)] as int,
        site.height_of(j_up, j),
    )
}

/// In row `i`, the height at which both faces first meet on the 45, as known
/// before `j` is reached (the planet's side while none is found): the first
/// `j` where `j_up`'s raised top sits exactly at `k_up`'s seam height and
/// `k_up`'s top sits exactly at `j_up`'s, which is then that top.
pub open spec fn edge_first_45(
    site: ChunkSite,
    j_up: BlockFace,
    k_up: BlockFace,
    j_heights: Seq<usize>,
    k_heights: Seq<usize>,
    i: int,
    j: int,
) -> int
    decreases j,
{
    if j <= 0 {
        site.s_dimensions as int
    } else {
        let prev = edge_first_45(site, j_up, k_up, j_heights, k_heights, i, j - 1);
        let k_top = lesser(edge_k_raised(site, j_up, k_up, k_heights, i, j - 1), prev);
        if edge_j_cache(site, j_up, k_up, j_heights, i, j - 1) == site.height_of(k_up, j - 1)
            && k_top == site.height_of(j_up, j - 1)
            && prev == site.s_dimensions {
            k_top
        } else {
            prev
        }
    }
}

/// `k_up`'s top height over `(i, j)`, capped at the first shared 45.
pub open spec fn edge_k_top(
    site: ChunkSite,
    j_up: BlockFace,
    k_up: BlockFace,
    j_heights: Seq<usize>,
    k_heights: Seq<usize>,
    i: int,
    j: int,
) -> int {
    lesser(
        edge_k_raised(site, j_up, k_up, k_heights, i, j),
        edge_first_45(site, j_up, k_up, j_heights, k_heights, i, j),
    )
}

/// What an edge chunk holds at chunk-local `(x, y, z)`. A voxel is filled when
/// it is at or below both faces' tops and on at most one of them; the face
/// whose top it is on is its "up", else the planet face it lies on.
pub open spec fn edge_voxel(
    site: ChunkSite,
    j_up: BlockFace,
    k_up: BlockFace,
    j_heights: Seq<usize>,
    k_heights: Seq<usize>,
    ranges: Seq<(u16, usize)>,
    x: int,
    y: int,
    z: int,
) -> Option<(u16, BlockFace)> {
    let aj = axis_of(j_up);
    let ak = axis_of(k_up);
    let i = coord_on(third_axis(aj, ak), x, y, z);
    let j = coord_on(aj, x, y, z);
    let k = coord_on(ak, x, y, z);
    edge_voxel_from(
        site,
        j_up,
        k_up,
        ranges,
        x,
        y,
        z,
        edge_first_45(site, j_up, k_up, j_heights, k_heights, i, j + 1),
        edge_k_top(site, j_up, k_up, j_heights, k_heights, i, j),
        edge_j_cache(site, j_up, k_up, j_heights, i, k),
    )
}

/// `edge_voxel` once the row's first shared 45, `k_up`'s capped top and
/// `j_up`'s raised top for the voxel are known.
pub open spec fn edge_voxel_from(
    site: ChunkSite,
    j_up: BlockFace,
    k_up: BlockFace,
    ranges: Seq<(u16, usize)>,
    x: int,
    y: int,
    z: int,
    first_45: int,
    k_top: int,
    j_cache: int,
) -> Option<(u16, BlockFace)> {
    let j = coord_on(axis_of(j_up), x, y, z);
    let k = coord_on(axis_of(k_up), x, y, z);
    let j_top = lesser(j_cache, first_45);
    let j_height = site.height_of(j_up, j);
    let k_height = site.height_of(k_up, k);
    let num_top = (if j_height == j_top { 1int } else { 0 }) + (if k_height == k_top { 1int } else { 0 });
    if j_height <= j_top && k_height <= k_top && num_top <= 1 {
        let up = if k_height == k_top {
            k_up
        } else if j_height == j_top {
            j_up
        } else {
            planet_face_spec(
                site.sx + x,
                site.sy + y,
                site.sz + z,
                site.s_dimensions as int,
                site.s_dimensions as int,
                site.s_dimensions as int,
            )
        };
        Some((block_for_depth(ranges, lesser(j_top - j_height, k_top - k_height)), up))
    } else {
        None
    }
}

fn third_axis_exec(a: Axis, b: Axis) -> (r: Axis)
    ensures
        r == third_axis(a, b),
{
    if a != Axis::X && b != Axis::X {
        Axis::X
    } else if a != Axis::Y && b != Axis::Y {
        Axis::Y
    } else {
        Axis::Z
    }
}

fn place_exec(aj: Axis, ak: Axis, i: usize, j: usize, k: usize) -> (r: (usize, usize, usize))
    ensures
        (r.0 as int, r.1 as int, r.2 as int) == place(aj, ak, i as int, j as int, k as int),
{
    let x = if aj == Axis::X { j } else if ak == Axis::X { k } else { i };
    let y = if aj == Axis::Y { j } else if ak == Axis::Y { k } else { i };
    let z = if aj == Axis::Z { j } else if ak == Axis::Z { k } else { i };
    (x, y, z)
}

fn placed_col_exec(axis: Axis, aj: Axis, ak: Axis, i: usize, j: usize, k: usize) -> (r: usize)
    requires
        i < CHUNK_DIMENSIONS,
        j < CHUNK_DIMENSIONS,
        k < CHUNK_DIMENSIONS,
    ensures
        r == placed_col(axis, aj, ak, i as int, j as int, k as int),
        r < N_COLUMNS,
{
    let (x, y, z) = place_exec(aj, ak, i, j, k);
    col(axis, x, y, z)
}

/// The tables that the edge fill reads per row: `j_up`'s raised tops over
/// `(i, k)`, and over `(i, j)` `k_up`'s capped top and the first shared 45
/// once row `j` is done.
struct EdgeTables {
    j_cache: Vec<usize>,
    k_top: Vec<usize>,
    first_45: Vec<usize>,
}

#[verifier::rlimit(50)]
fn edge_tables(
    site: ChunkSite,
    j_up: BlockFace,
    k_up: BlockFace,
    j_heights: &Vec<usize>,
    k_heights: &Vec<usize>,
) -> (r: EdgeTables)
    requires
        site.wf(),
        j_heights@.len() == N_COLUMNS,
        k_heights@.len() == N_COLUMNS,
    ensures
        r.j_cache@.len() == N_COLUMNS,
        r.k_top@.len() == N_COLUMNS,
        r.first_45@.len() == N_COLUMNS,
        forall|i: int, k: int|
            0 <= i < 32 && 0 <= k < 32 ==> #[trigger] r.j_cache@[i * 32 + k] as int == edge_j_cache(
                site, j_up, k_up, j_heights@, i, k),
        forall|i: int, j: int|
            0 <= i < 32 && 0 <= j < 32 ==> #[trigger] r.k_top@[i * 32 + j] as int == edge_k_top(
                site, j_up, k_up, j_heights@, k_heights@, i, j),
        forall|i: int, j: int|
            0 <= i < 32 && 0 <= j < 32 ==> #[trigger] r.first_45@[i * 32 + j] as int == edge_first_45(
                site, j_up, k_up, j_heights@, k_heights@, i, j + 1),
{
    let aj = j_up.axis();
    let ak = k_up.axis();
    let mut j_cache: Vec<usize> = Vec::new();
    let mut i: usize = 0;
    while i < CHUNK_DIMENSIONS
        invariant
            i <= 32,
            site.wf(),
            j_heights@.len() == N_COLUMNS,
            aj == axis_of(j_up),
            ak == axis_of(k_up),
            j_cache@.len() == i * 32,
            forall|i2: int, k: int|
                0 <= i2 < i && 0 <= k < 32 ==> #[trigger] j_cache@[i2 * 32 + k] as int == edge_j_cache(
                    site, j_up, k_up, j_heights@, i2, k),
        decreases 32 - i,
    {
        let mut k: usize = 0;
        while k < CHUNK_DIMENSIONS
            invariant
                i < 32,
                k <= 32,
                site.wf(),
                j_heights@.len() == N_COLUMNS,
                aj == axis_of(j_up),
                ak == axis_of(k_up),
                j_cache@.len() == i * 32 + k,
                forall|i2: int, k2: int|
                    0 <= i2 < i && 0 <= k2 < 32 ==> #[trigger] j_cache@[i2 * 32 + k2] as int == edge_j_cache(
                        site, j_up, k_up, j_heights@, i2, k2),
                forall|k2: int|
                    0 <= k2 < k ==> #[trigger] j_cache@[i * 32 + k2] as int == edge_j_cache(
                        site, j_up, k_up, j_heights@, i as int, k2),
            decreases 32 - k,
        {
            let raw = j_heights[placed_col_exec(aj, aj, ak, i, 0, k)];
            let dim_45 = height_in(site, k_up, k);
            let h = if raw >= dim_45 { raw } else { dim_45 };
            j_cache.push(h);
            k += 1;
        }
        i += 1;
    }
    let mut k_top: Vec<usize> = Vec::new();
    let mut first_45: Vec<usize> = Vec::new();
    let mut i: usize = 0;
    while i < CHUNK_DIMENSIONS
        invariant
            i <= 32,
            site.wf(),
            j_heights@.len() == N_COLUMNS,
            k_heights@.len() == N_COLUMNS,
            aj == axis_of(j_up),
            ak == axis_of(k_up),
            j_cache@.len() == N_COLUMNS,
            forall|i2: int, k: int|
                0 <= i2 < 32 && 0 <= k < 32 ==> #[trigger] j_cache@[i2 * 32 + k] as int == edge_j_cache(
                    site, j_up, k_up, j_heights@, i2, k),
            k_top@.len() == i * 32,
            first_45@.len() == i * 32,
            forall|i2: int, j: int|
                0 <= i2 < i && 0 <= j < 32 ==> #[trigger] k_top@[i2 * 32 + j] as int == edge_k_top(
                    site, j_up, k_up, j_heights@, k_heights@, i2, j),
            forall|i2: int, j: int|
                0 <= i2 < i && 0 <= j < 32 ==> #[trigger] first_45@[i2 * 32 + j] as int == edge_first_45(
                    site, j_up, k_up, j_heights@, k_heights@, i2, j + 1),
        decreases 32 - i,
    {
        let mut first_both_45 = site.s_dimensions;
        let mut j: usize = 0;
        while j < CHUNK_DIMENSIONS
            invariant
                i < 32,
                j <= 32,
                site.wf(),
                j_heights@.len() == N_COLUMNS,
                k_heights@.len() == N_COLUMNS,
                aj == axis_of(j_up),
                ak == axis_of(k_up),
                j_cache@.len() == N_COLUMNS,
                forall|i2: int, k: int|
                    0 <= i2 < 32 && 0 <= k < 32 ==> #[trigger] j_cache@[i2 * 32 + k] as int == edge_j_cache(
                        site, j_up, k_up, j_heights@, i2, k),
                k_top@.len() == i * 32 + j,
                first_45@.len() == i * 32 + j,
                forall|i2: int, j2: int|
                    0 <= i2 < i && 0 <= j2 < 32 ==> #[trigger] k_top@[i2 * 32 + j2] as int == edge_k_top(
                        site, j_up, k_up, j_heights@, k_heights@, i2, j2),
                forall|i2: int, j2: int|
                    0 <= i2 < i && 0 <= j2 < 32 ==> #[trigger] first_45@[i2 * 32 + j2] as int == edge_first_45(
                        site, j_up, k_up, j_heights@, k_heights@, i2, j2 + 1),
                forall|j2: int|
                    0 <= j2 < j ==> #[trigger] k_top@[i * 32 + j2] as int == edge_k_top(
                        site, j_up, k_up, j_heights@, k_heights@, i as int, j2),
                forall|j2: int|
                    0 <= j2 < j ==> #[trigger] first_45@[i * 32 + j2] as int == edge_first_45(
                        site, j_up, k_up, j_heights@, k_heights@, i as int, j2 + 1),
                first_both_45 as int == edge_first_45(site, j_up, k_up, j_heights@, k_heights@, i as int, j as int),
            decreases 32 - j,
        {
            let raw = k_heights[placed_col_exec(ak, aj, ak, i, j, 0)];
            let j_height = height_in(site, j_up, j);
            let raised = if raw >= j_height { raw } else { j_height };
            let top = if raised <= first_both_45 { raised } else { first_both_45 };
            if j_cache[i * 32 + j] == height_in(site, k_up, j) && top == j_height && first_both_45
                == site.s_dimensions {
                first_both_45 = top;
            }
            k_top.push(top);
            first_45.push(first_both_45);
            j += 1;
        }
        i += 1;
    }
    EdgeTables { j_cache, k_top, first_45 }
}

#[verifier::rlimit(60)]
fn edge_voxel_exec(
    site: ChunkSite,
    j_up: BlockFace,
    k_up: BlockFace,
    j_heights: &Vec<usize>,
    k_heights: &Vec<usize>,
    tables: &EdgeTables,
    ranges: &BlockRanges,
    x: usize,
    y: usize,
    z: usize,
) -> (r: Option<(u16, BlockFace)>)
    requires
        site.wf(),
        axis_of(j_up) != axis_of(k_up),
        j_heights@.len() == N_COLUMNS,
        k_heights@.len() == N_COLUMNS,
        in_chunk(x as int, y as int, z as int),
        tables.j_cache@.len() == N_COLUMNS,
        tables.k_top@.len() == N_COLUMNS,
        tables.first_45@.len() == N_COLUMNS,
        forall|i: int, k: int|
            0 <= i < 32 && 0 <= k < 32 ==> #[trigger] tables.j_cache@[i * 32 + k] as int == edge_j_cache(
                site, j_up, k_up, j_heights@, i, k),
        forall|i: int, j: int|
            0 <= i < 32 && 0 <= j < 32 ==> #[trigger] tables.k_top@[i * 32 + j] as int == edge_k_top(
                site, j_up, k_up, j_heights@, k_heights@, i, j),
        forall|i: int, j: int|
            0 <= i < 32 && 0 <= j < 32 ==> #[trigger] tables.first_45@[i * 32 + j] as int == edge_first_45(
                site, j_up, k_up, j_heights@, k_heights@, i, j + 1),
    ensures
        r == edge_voxel(site, j_up, k_up, j_heights@, k_heights@, ranges@, x as int, y as int, z as int),
{
    let aj = j_up.axis();
    let ak = k_up.axis();
    let i = coord_of(third_axis_exec(aj, ak), x, y, z);
    let j = coord_of(aj, x, y, z);
    let k = coord_of(ak, x, y, z);
    let first_both_45 = tables.first_45[i * 32 + j];
    let k_top = tables.k_top[i * 32 + j];
    let cached = tables.j_cache[i * 32 + k];
    assert(edge_voxel(site, j_up, k_up, j_heights@, k_heights@, ranges@, x as int, y as int, z as int)
        == edge_voxel_from(site, j_up, k_up, ranges@, x as int, y as int, z as int, first_both_45 as int,
        k_top as int, cached as int));
    let j_top = if cached <= first_both_45 { cached } else { first_both_45 };
    let j_height = height_in(site, j_up, j);
    let k_height = height_in(site, k_up, k);
    let num_top: usize = (if j_height == j_top { 1 } else { 0 }) + (if k_height == k_top { 1 } else { 0 });
    if j_height <= j_top && k_height <= k_top && num_top <= 1 {
        let up = if k_height == k_top {
            k_up
        } else if j_height == j_top {
            j_up
        } else {
            planet_face(
                site.sx + x,
                site.sy + y,
                site.sz + z,
                site.s_dimensions,
                site.s_dimensions,
                site.s_dimensions,
            )
        };
        let j_depth = j_top - j_height;
        let k_depth = k_top - k_height;
        Some((ranges.edge_block(j_depth, k_depth), up))
    } else {
        None
    }
}

/// Fills a chunk that lies on the edge where planet faces `j_up` and `k_up` meet.
pub fn do_edge(
    site: ChunkSite,
    j_heights: &Vec<usize>,
    k_heights: &Vec<usize>,
    block_ranges: &BlockRanges,
    chunk: &mut Chunk,
    j_up: BlockFace,
    k_up: BlockFace,
)
    requires
        site.wf(),
        axis_of(j_up) != axis_of(k_up),
        j_heights@.len() == N_COLUMNS,
        k_heights@.len() == N_COLUMNS,
        old(chunk).wf(),
    ensures
        filled_from(
            *old(chunk),
            *final(chunk),
            |x: int, y: int, z: int|
                edge_voxel(site, j_up, k_up, j_heights@, k_heights@, block_ranges@, x, y, z),
        ),
{
    let tables = edge_tables(site, j_up, k_up, j_heights, k_heights);
    let f = |x: usize, y: usize, z: usize| -> (r: Option<(u16, BlockFace)>)
        requires
            in_chunk(x as int, y as int, z as int),
        ensures
            r == edge_voxel(site, j_up, k_up, j_heights@, k_heights@, block_ranges@, x as int, y as int, z as int),
        { edge_voxel_exec(site, j_up, k_up, j_heights, k_heights, &tables, block_ranges, x, y, z) };
    chunk.fill_with(
        f,
        Ghost(
            |x: int, y: int, z: int|
                edge_voxel(site, j_up, k_up, j_heights@, k_heights@, block_ranges@, x, y, z),
        ),
    );
}

// ---------------------------------------------------------------------------
// A corner, where the faces `x_up`, `y_up` and `z_up` meet. Chunk-local
// coordinates are `(i, j, k) = (x, y, z)`.

/// `x_up`'s top height over `(j, k)`, never below the 45s toward the two others.
pub open spec fn corner_x_cache(site: ChunkSite, x_up: BlockFace, y_up: BlockFace, z_up: BlockFace, x_heights: Seq<usize>, j: int, k: int) -> int {
    greater(greater(x_heights[j * 32 + k] as int, site.height_of(y_up, j)), site.height_of(z_up, k))
}

/// `y_up`'s top height over `(i, k)`, never below the 45s toward the two others.
pub open spec fn corner_y_cache(site: ChunkSite, x_up: BlockFace, y_up: BlockFace, z_up: BlockFace, y_heights: Seq<usize>, i: int, k: int) -> int {
    greater(greater(y_heights[i * 32 + k] as int, site.height_of(x_up, i)), site.height_of(z_up, k))
}

/// `z_up`'s top height over `(i, j)`, never below the 45s toward the two others.
pub open spec fn corner_z_raised(site: ChunkSite, x_up: BlockFace, y_up: BlockFace, z_up: BlockFace, z_heights: Seq<usize>, i: int, j: int) -> int {
    greater(greater(z_heights[i * 32 + j] as int, site.height_of(x_up, i)), site.height_of(y_up, j))
}

/// In row `i`, the height at which all three faces first meet on the 45, as
/// known before `j` is reached (the planet's side while none is found): the
/// first `j` where the raised tops of `x_up` and `y_up` sit exactly at
/// `z_up`'s seam height and `z_up`'s top sits exactly at `y_up`'s, which is
/// then that top.
pub open spec fn corner_first_45(
    site: ChunkSite,
    faces: (BlockFace, BlockFace, BlockFace),
    heights: (Seq<usize>, Seq<usize>, Seq<usize>),
    i: int,
    j: int,
) -> int
    decreases j,
{
    if j <= 0 {
        site.s_dimensions as int
    } else {
        let (x_up, y_up, z_up) = faces;
        let prev = corner_first_45(site, faces, heights, i, j - 1);
        let z_top = lesser(corner_z_raised(site, x_up, y_up, z_up, heights.2, i, j - 1), prev);
        if corner_x_cache(site, x_up, y_up, z_up, heights.0, i, j - 1) == site.height_of(z_up, j - 1)
            && corner_y_cache(site, x_up, y_up, z_up, heights.1, i, j - 1) == site.height_of(z_up, j - 1)
            && z_top == site.height_of(y_up, j - 1)
            && prev == site.s_dimensions {
            z_top
        } else {
            prev
        }
    }
}

/// `z_up`'s top height over `(i, j)`, capped at the first shared 45.
pub open spec fn corner_z_top(
    site: ChunkSite,
    faces: (BlockFace, BlockFace, BlockFace),
    heights: (Seq<usize>, Seq<usize>, Seq<usize>),
    i: int,
    j: int,
) -> int {
    lesser(
        corner_z_raised(site, faces.0, faces.1, faces.2, heights.2, i, j),
        corner_first_45(site, faces, heights, i, j),
    )
}

/// What a corner chunk holds at chunk-local `(i, j, k)` once the row's first
/// shared 45 and the three capped tops are known. A voxel is filled when it is
/// at or below all three tops and on at most one of them.
pub open spec fn corner_voxel_from(
    site: ChunkSite,
    faces: (BlockFace, BlockFace, BlockFace),
    ranges: Seq<(u16, usize)>,
    i: int,
    j: int,
    k: int,
    x_top: int,
    y_top: int,
    z_top: int,
) -> Option<(u16, BlockFace)> {
    let (x_up, y_up, z_up) = faces;
    let x_height = site.height_of(x_up, i);
    let y_height = site.height_of(y_up, j);
    let z_height = site.height_of(z_up, k);
    let num_top = (if x_height == x_top { 1int } else { 0 }) + (if y_height == y_top { 1int } else { 0 }) + (
    if z_height == z_top { 1int } else { 0 });
    if x_height <= x_top && y_height <= y_top && z_height <= z_top && num_top <= 1 {
        let up = if z_height == z_top {
            z_up
        } else if y_height == y_top {
            y_up
        } else if x_height == x_top {
            x_up
        } else {
            planet_face_spec(
                site.sx + i,
                site.sy + j,
                site.sz + k,
                site.s_dimensions as int,
                site.s_dimensions as int,
                site.s_dimensions as int,
            )
        };
        Some((block_for_depth(ranges, min3(x_top - x_height, y_top - y_height, z_top - z_height)), up))
    } else {
        None
    }
}

/// What a corner chunk holds at chunk-local `(i, j, k)`.
pub open spec fn corner_voxel(
    site: ChunkSite,
    faces: (BlockFace, BlockFace, BlockFace),
    heights: (Seq<usize>, Seq<usize>, Seq<usize>),
    ranges: Seq<(u16, usize)>,
    i: int,
    j: int,
    k: int,
) -> Option<(u16, BlockFace)> {
    let (x_up, y_up, z_up) = faces;
    let first_45 = corner_first_45(site, faces, heights, i, j + 1);
    corner_voxel_from(
        site,
        faces,
        ranges,
        i,
        j,
        k,
        lesser(corner_x_cache(site, x_up, y_up, z_up, heights.0, j, k), first_45),
        lesser(corner_y_cache(site, x_up, y_up, z_up, heights.1, i, k), first_45),
        corner_z_top(site, faces, heights, i, j),
    )
}

/// The tables that the corner fill reads: the raised tops of `x_up` over
/// `(j, k)` and of `y_up` over `(i, k)`, and over `(i, j)` `z_up`'s capped top
/// and the first shared 45 once row `j` is done.
struct CornerTables {
    x_cache: Vec<usize>,
    y_cache: Vec<usize>,
    z_top: Vec<usize>,
    first_45: Vec<usize>,
}

fn greatest(a: usize, b: usize, c: usize) -> (r: usize)
    ensures
        r as int == greater(greater(a as int, b as int), c as int),
{
    let ab = if a >= b { a } else { b };
    if ab >= c { ab } else { c }
}

/// A table over `(a, b)` of `greatest(heights[a * 32 + b], first(a), second(b))`.
fn raised_table(site: ChunkSite, heights: &Vec<usize>, first: BlockFace, second: BlockFace) -> (r: Vec<usize>)
    requires
        site.wf(),
        heights@.len() == N_COLUMNS,
    ensures
        r@.len() == N_COLUMNS,
        forall|a: int, b: int|
            0 <= a < 32 && 0 <= b < 32 ==> #[trigger] r@[a * 32 + b] as int == greater(
                greater(heights@[a * 32 + b] as int, site.height_of(first, a)),
                site.height_of(second, b),
            ),
{
    let mut r: Vec<usize> = Vec::new();
    let mut a: usize = 0;
    while a < CHUNK_DIMENSIONS
        invariant
            a <= 32,
            site.wf(),
            heights@.len() == N_COLUMNS,
            r@.len() == a * 32,
            forall|a2: int, b: int|
                0 <= a2 < a && 0 <= b < 32 ==> #[trigger] r@[a2 * 32 + b] as int == greater(
                    greater(heights@[a2 * 32 + b] as int, site.height_of(first, a2)),
                    site.height_of(second, b),
                ),
        decreases 32 - a,
    {
        let mut b: usize = 0;
        while b < CHUNK_DIMENSIONS
            invariant
                a < 32,
                b <= 32,
                site.wf(),
                heights@.len() == N_COLUMNS,
                r@.len() == a * 32 + b,
                forall|a2: int, b2: int|
                    0 <= a2 < a && 0 <= b2 < 32 ==> #[trigger] r@[a2 * 32 + b2] as int == greater(
                        greater(heights@[a2 * 32 + b2] as int, site.height_of(first, a2)),
                        site.height_of(second, b2),
                    ),
                forall|b2: int|
                    0 <= b2 < b ==> #[trigger] r@[a * 32 + b2] as int == greater(
                        greater(heights@[a * 32 + b2] as int, site.height_of(first, a as int)),
                        site.height_of(second, b2),
                    ),
            decreases 32 - b,
        {
            let h = greatest(heights[a * 32 + b], height_in(site, first, a), height_in(site, second, b));
            r.push(h);
            b += 1;
        }
        a += 1;
    }
    r
}

#[verifier::rlimit(50)]
fn corner_tables(
    site: ChunkSite,
    faces: (BlockFace, BlockFace, BlockFace),
    x_heights: &Vec<usize>,
    y_heights: &Vec<usize>,
    z_heights: &Vec<usize>,
) -> (r: CornerTables)
    requires
        site.wf(),
        x_heights@.len() == N_COLUMNS,
        y_heights@.len() == N_COLUMNS,
        z_heights@.len() == N_COLUMNS,
    ensures
        r.x_cache@.len() == N_COLUMNS,
        r.y_cache@.len() == N_COLUMNS,
        r.z_top@.len() == N_COLUMNS,
        r.first_45@.len() == N_COLUMNS,
        forall|j: int, k: int|
            0 <= j < 32 && 0 <= k < 32 ==> #[trigger] r.x_cache@[j * 32 + k] as int == corner_x_cache(
                site, faces.0, faces.1, faces.2, x_heights@, j, k),
        forall|i: int, k: int|
            0 <= i < 32 && 0 <= k < 32 ==> #[trigger] r.y_cache@[i * 32 + k] as int == corner_y_cache(
                site, faces.0, faces.1, faces.2, y_heights@, i, k),
        forall|i: int, j: int|
            0 <= i < 32 && 0 <= j < 32 ==> #[trigger] r.z_top@[i * 32 + j] as int == corner_z_top(
                site, faces, (x_heights@, y_heights@, z_heights@), i, j),
        forall|i: int, j: int|
            0 <= i < 32 && 0 <= j < 32 ==> #[trigger] r.first_45@[i * 32 + j] as int == corner_first_45(
                site, faces, (x_heights@, y_heights@, z_heights@), i, j + 1),
{
    let (x_up, y_up, z_up) = faces;
    let ghost hs = (x_heights@, y_heights@, z_heights@);
    let x_cache = raised_table(site, x_heights, y_up, z_up);
    let y_cache = raised_table(site, y_heights, x_up, z_up);
    let z_raised = raised_table(site, z_heights, x_up, y_up);
    let mut z_top: Vec<usize> = Vec::new();
    let mut first_45: Vec<usize> = Vec::new();
    let mut i: usize = 0;
    while i < CHUNK_DIMENSIONS
        invariant
            i <= 32,
            site.wf(),
            faces == (x_up, y_up, z_up),
            hs == (x_heights@, y_heights@, z_heights@),
            x_cache@.len() == N_COLUMNS,
            y_cache@.len() == N_COLUMNS,
            z_raised@.len() == N_COLUMNS,
            forall|j: int, k: int|
                0 <= j < 32 && 0 <= k < 32 ==> #[trigger] x_cache@[j * 32 + k] as int == corner_x_cache(
                    site, x_up, y_up, z_up, x_heights@, j, k),
            forall|i2: int, k: int|
                0 <= i2 < 32 && 0 <= k < 32 ==> #[trigger] y_cache@[i2 * 32 + k] as int == corner_y_cache(
                    site, x_up, y_up, z_up, y_heights@, i2, k),
            forall|i2: int, j: int|
                0 <= i2 < 32 && 0 <= j < 32 ==> #[trigger] z_raised@[i2 * 32 + j] as int == corner_z_raised(
                    site, x_up, y_up, z_up, z_heights@, i2, j),
            z_top@.len() == i * 32,
            first_45@.len() == i * 32,
            forall|i2: int, j: int|
                0 <= i2 < i && 0 <= j < 32 ==> #[trigger] z_top@[i2 * 32 + j] as int == corner_z_top(site, faces, hs, i2, j),
            forall|i2: int, j: int|
                0 <= i2 < i && 0 <= j < 32 ==> #[trigger] first_45@[i2 * 32 + j] as int == corner_first_45(site, faces, hs, i2, j + 1),
        decreases 32 - i,
    {
        let mut first_all_45 = site.s_dimensions;
        let mut j: usize = 0;
        while j < CHUNK_DIMENSIONS
            invariant
                i < 32,
                j <= 32,
                site.wf(),
                faces == (x_up, y_up, z_up),
                hs == (x_heights@, y_heights@, z_heights@),
                x_cache@.len() == N_COLUMNS,
                y_cache@.len() == N_COLUMNS,
                z_raised@.len() == N_COLUMNS,
                forall|j2: int, k: int|
                    0 <= j2 < 32 && 0 <= k < 32 ==> #[trigger] x_cache@[j2 * 32 + k] as int == corner_x_cache(
                        site, x_up, y_up, z_up, x_heights@, j2, k),
                forall|i2: int, k: int|
                    0 <= i2 < 32 && 0 <= k < 32 ==> #[trigger] y_cache@[i2 * 32 + k] as int == corner_y_cache(
                        site, x_up, y_up, z_up, y_heights@, i2, k),
                forall|i2: int, j2: int|
                    0 <= i2 < 32 && 0 <= j2 < 32 ==> #[trigger] z_raised@[i2 * 32 + j2] as int == corner_z_raised(
                        site, x_up, y_up, z_up, z_heights@, i2, j2),
                z_top@.len() == i * 32 + j,
                first_45@.len() == i * 32 + j,
                forall|i2: int, j2: int|
                    0 <= i2 < i && 0 <= j2 < 32 ==> #[trigger] z_top@[i2 * 32 + j2] as int == corner_z_top(site, faces, hs, i2, j2),
                forall|i2: int, j2: int|
                    0 <= i2 < i && 0 <= j2 < 32 ==> #[trigger] first_45@[i2 * 32 + j2] as int == corner_first_45(site, faces, hs, i2, j2 + 1),
                forall|j2: int|
                    0 <= j2 < j ==> #[trigger] z_top@[i * 32 + j2] as int == corner_z_top(site, faces, hs, i as int, j2),
                forall|j2: int|
                    0 <= j2 < j ==> #[trigger] first_45@[i * 32 + j2] as int == corner_first_45(site, faces, hs, i as int, j2 + 1),
                first_all_45 as int == corner_first_45(site, faces, hs, i as int, j as int),
            decreases 32 - j,
        {
            let raised = z_raised[i * 32 + j];
            let top = if raised <= first_all_45 { raised } else { first_all_45 };
            let z_seam = height_in(site, z_up, j);
            if x_cache[i * 32 + j] == z_seam && y_cache[i * 32 + j] == z_seam && top == height_in(site, y_up, j)
                && first_all_45 == site.s_dimensions {
                first_all_45 = top;
            }
            z_top.push(top);
            first_45.push(first_all_45);
            j += 1;
        }
        i += 1;
    }
    CornerTables { x_cache, y_cache, z_top, first_45 }
}

#[verifier::rlimit(60)]
fn corner_voxel_exec(
    site: ChunkSite,
    faces: (BlockFace, BlockFace, BlockFace),
    x_heights: &Vec<usize>,
    y_heights: &Vec<usize>,
    z_heights: &Vec<usize>,
    tables: &CornerTables,
    ranges: &BlockRanges,
    i: usize,
    j: usize,
    k: usize,
) -> (r: Option<(u16, BlockFace)>)
    requires
        site.wf(),
        x_heights@.len() == N_COLUMNS,
        y_heights@.len() == N_COLUMNS,
        z_heights@.len() == N_COLUMNS,
        in_chunk(i as int, j as int, k as int),
        tables.x_cache@.len() == N_COLUMNS,
        tables.y_cache@.len() == N_COLUMNS,
        tables.z_top@.len() == N_COLUMNS,
        tables.first_45@.len() == N_COLUMNS,
        forall|j: int, k: int|
            0 <= j < 32 && 0 <= k < 32 ==> #[trigger] tables.x_cache@[j * 32 + k] as int == corner_x_cache(
                site, faces.0, faces.1, faces.2, x_heights@, j, k),
        forall|i: int, k: int|
            0 <= i < 32 && 0 <= k < 32 ==> #[trigger] tables.y_cache@[i * 32 + k] as int == corner_y_cache(
                site, faces.0, faces.1, faces.2, y_heights@, i, k),
        forall|i: int, j: int|
            0 <= i < 32 && 0 <= j < 32 ==> #[trigger] tables.z_top@[i * 32 + j] as int == corner_z_top(
                site, faces, (x_heights@, y_heights@, z_heights@), i, j),
        forall|i: int, j: int|
            0 <= i < 32 && 0 <= j < 32 ==> #[trigger] tables.first_45@[i * 32 + j] as int == corner_first_45(
                site, faces, (x_heights@, y_heights@, z_heights@), i, j + 1),
    ensures
        r == corner_voxel(site, faces, (x_heights@, y_heights@, z_heights@), ranges@, i as int, j as int, k as int),
{
    let (x_up, y_up, z_up) = faces;
    let first_all_45 = tables.first_45[i * 32 + j];
    let z_top = tables.z_top[i * 32 + j];
    let xc = tables.x_cache[j * 32 + k];
    let yc = tables.y_cache[i * 32 + k];
    let x_top = if xc <= first_all_45 { xc } else { first_all_45 };
    let y_top = if yc <= first_all_45 { yc } else { first_all_45 };
    assert(corner_voxel(site, faces, (x_heights@, y_heights@, z_heights@), ranges@, i as int, j as int, k as int)
        == corner_voxel_from(site, faces, ranges@, i as int, j as int, k as int, x_top as int, y_top as int,
        z_top as int));
    let x_height = height_in(site, x_up, i);
    let y_height = height_in(site, y_up, j);
    let z_height = height_in(site, z_up, k);
    let num_top: usize = (if x_height == x_top { 1 } else { 0 }) + (if y_height == y_top { 1 } else { 0 }) + (
    if z_height == z_top { 1 } else { 0 });
    if x_height <= x_top && y_height <= y_top && z_height <= z_top && num_top <= 1 {
        let up = if z_height == z_top {
            z_up
        } else if y_height == y_top {
            y_up
        } else if x_height == x_top {
            x_up
        } else {
            planet_face(
                site.sx + i,
                site.sy + j,
                site.sz + k,
                site.s_dimensions,
                site.s_dimensions,
                site.s_dimensions,
            )
        };
        let x_depth = x_top - x_height;
        let y_depth = y_top - y_height;
        let z_depth = z_top - z_height;
        Some((ranges.corner_block(x_depth, y_depth, z_depth), up))
    } else {
        None
    }
}

/// Fills a chunk that lies on the corner where planet faces
/// `x_up`, `y_up` and `z_up` (one per axis, in that order) meet.
pub fn do_corner(
    site: ChunkSite,
    x_heights: &Vec<usize>,
    y_heights: &Vec<usize>,
    z_heights: &Vec<usize>,
    block_ranges: &BlockRanges,
    chunk: &mut Chunk,
    x_up: BlockFace,
    y_up: BlockFace,
    z_up: BlockFace,
)
    requires
        site.wf(),
        x_heights@.len() == N_COLUMNS,
        y_heights@.len() == N_COLUMNS,
        z_heights@.len() == N_COLUMNS,
        old(chunk).wf(),
    ensures
        filled_from(
            *old(chunk),
            *final(chunk),
            |x: int, y: int, z: int|
                corner_voxel(
                    site,
                    (x_up, y_up, z_up),
                    (x_heights@, y_heights@, z_heights@),
                    block_ranges@,
                    x,
                    y,
                    z,
                ),
        ),
{
    let faces = (x_up, y_up, z_up);
    let tables = corner_tables(site, faces, x_heights, y_heights, z_heights);
    let f = |x: usize, y: usize, z: usize| -> (r: Option<(u16, BlockFace)>)
        requires
            in_chunk(x as int, y as int, z as int),
        ensures
            r == corner_voxel(
                site,
                faces,
                (x_heights@, y_heights@, z_heights@),
                block_ranges@,
                x as int,
                y as int,
                z as int,
            ),
        { corner_voxel_exec(site, faces, x_heights, y_heights, z_heights, &tables, block_ranges, x, y, z) };
    chunk.fill_with(
        f,
        Ghost(
            |x: int, y: int, z: int|
                corner_voxel(
                    site,
                    (x_up, y_up, z_up),
                    (x_heights@, y_heights@, z_heights@),
                    block_ranges@,
                    x,
                    y,
                    z,
                ),
        ),
    );
}

// ---------------------------------------------------------------------------
// A whole chunk.

/// The surface height tables of the faces a chunk touches, one per axis; a
/// table whose axis the chunk touches no face on is not read.
#[derive(Debug)]
pub struct ColumnHeights {
    /// The table of the face on the x axis.
    pub x: Vec<usize>,
    /// The table of the face on the y axis.
    pub y: Vec<usize>,
    /// The table of the face on the z axis.
    pub z: Vec<usize>,
}

/// The faces a chunk at `site` touches.
pub open spec fn site_faces(site: ChunkSite) -> ChunkFaces {
    ChunkFaces {
        x: touched_face(Axis::X, site.sx as int, site.sy as int, site.sz as int, site.s_dimensions as int),
        y: touched_face(Axis::Y, site.sx as int, site.sy as int, site.sz as int, site.s_dimensions as int),
        z: touched_face(Axis::Z, site.sx as int, site.sy as int, site.sz as int, site.s_dimensions as int),
    }
}

/// Whether `heights` has a full table for each axis the chunk at `site` touches a face on.
pub open spec fn heights_ready(site: ChunkSite, heights: ColumnHeights) -> bool {
    let faces = site_faces(site);
    &&& faces.x is Some ==> heights.x@.len() == N_COLUMNS
    &&& faces.y is Some ==> heights.y@.len() == N_COLUMNS
    &&& faces.z is Some ==> heights.z@.len() == N_COLUMNS
}

/// What a chunk that touches `faces` holds at chunk-local `(x, y, z)`: the
/// face fill on one face, the edge fill on two (the lower axis first), the
/// corner fill on three.
pub open spec fn chunk_voxel(
    site: ChunkSite,
    faces: ChunkFaces,
    heights: (Seq<usize>, Seq<usize>, Seq<usize>),
    ranges: Seq<(u16, usize)>,
    x: int,
    y: int,
    z: int,
) -> Option<(u16, BlockFace)> {
    let (hx, hy, hz) = heights;
    match (faces.x, faces.y, faces.z) {
        (Some(fx), Some(fy), Some(fz)) => corner_voxel(site, (fx, fy, fz), heights, ranges, x, y, z),
        (Some(fx), Some(fy), None) => edge_voxel(site, fx, fy, hx, hy, ranges, x, y, z),
        (Some(fx), None, Some(fz)) => edge_voxel(site, fx, fz, hx, hz, ranges, x, y, z),
        (None, Some(fy), Some(fz)) => edge_voxel(site, fy, fz, hy, hz, ranges, x, y, z),
        (Some(f), None, None) => face_voxel(f, site, hx, ranges, x, y, z),
        (None, Some(f), None) => face_voxel(f, site, hy, ranges, x, y, z),
        (None, None, Some(f)) => face_voxel(f, site, hz, ranges, x, y, z),
        (None, None, None) => None,
    }
}

/// The faces the chunk at `site` touches, at most one per axis.
pub fn chunk_faces_of(site: ChunkSite) -> (r: ChunkFaces)
    requires
        site.wf(),
    ensures
        r == site_faces(site),
{
    chunk_faces(site.sx, site.sy, site.sz, site.s_dimensions)
}

/// Where `chunk` sits in a planet of side `s_dimensions`.
pub fn site_of(chunk: &Chunk, s_dimensions: usize) -> (r: ChunkSite)
    requires
        (chunk.coords().0 + 1) * CHUNK_DIMENSIONS <= s_dimensions,
        (chunk.coords().1 + 1) * CHUNK_DIMENSIONS <= s_dimensions,
        (chunk.coords().2 + 1) * CHUNK_DIMENSIONS <= s_dimensions,
    ensures
        r.sx == chunk.coords().0 * CHUNK_DIMENSIONS,
        r.sy == chunk.coords().1 * CHUNK_DIMENSIONS,
        r.sz == chunk.coords().2 * CHUNK_DIMENSIONS,
        r.s_dimensions == s_dimensions,
{
    ChunkSite {
        sx: chunk.structure_x() * CHUNK_DIMENSIONS,
        sy: chunk.structure_y() * CHUNK_DIMENSIONS,
        sz: chunk.structure_z() * CHUNK_DIMENSIONS,
        s_dimensions,
    }
}

/// Fills a planet chunk with terrain: finds the faces it touches and runs the
/// face, edge or corner fill on them.
pub fn generate_chunk(site: ChunkSite, heights: &ColumnHeights, block_ranges: &BlockRanges, chunk: &mut Chunk)
    requires
        site.wf(),
        heights_ready(site, *heights),
        old(chunk).wf(),
    ensures
        filled_from(
            *old(chunk),
            *final(chunk),
            |x: int, y: int, z: int|
                chunk_voxel(
                    site,
                    site_faces(site),
                    (heights.x@, heights.y@, heights.z@),
                    block_ranges@,
                    x,
                    y,
                    z,
                ),
        ),
{
    let faces = chunk_faces_of(site);
    let ghost hs = (heights.x@, heights.y@, heights.z@);
    let ghost c0 = *chunk;
    let ghost want = |x: int, y: int, z: int| chunk_voxel(site, site_faces(site), hs, block_ranges@, x, y, z);
    match (faces.x, faces.y, faces.z) {
        (Some(fx), Some(fy), Some(fz)) => {
            do_corner(site, &heights.x, &heights.y, &heights.z, block_ranges, chunk, fx, fy, fz);
            proof {
                lemma_filled_from_agreeing(
                    c0,
                    *chunk,
                    |x: int, y: int, z: int| corner_voxel(site, (fx, fy, fz), hs, block_ranges@, x, y, z),
                    want,
                );
            }
        },
        (Some(fx), Some(fy), None) => {
            do_edge(site, &heights.x, &heights.y, block_ranges, chunk, fx, fy);
            proof {
                lemma_filled_from_agreeing(
                    c0,
                    *chunk,
                    |x: int, y: int, z: int| edge_voxel(site, fx, fy, hs.0, hs.1, block_ranges@, x, y, z),
                    want,
                );
            }
        },
        (Some(fx), None, Some(fz)) => {
            do_edge(site, &heights.x, &heights.z, block_ranges, chunk, fx, fz);
            proof {
                lemma_filled_from_agreeing(
                    c0,
                    *chunk,
                    |x: int, y: int, z: int| edge_voxel(site, fx, fz, hs.0, hs.2, block_ranges@, x, y, z),
                    want,
                );
            }
        },
        (None, Some(fy), Some(fz)) => {
            do_edge(site, &heights.y, &heights.z, block_ranges, chunk, fy, fz);
            proof {
                lemma_filled_from_agreeing(
                    c0,
                    *chunk,
                    |x: int, y: int, z: int| edge_voxel(site, fy, fz, hs.1, hs.2, block_ranges@, x, y, z),
                    want,
                );
            }
        },
        (Some(f), None, None) => {
            do_face(site, &heights.x, block_ranges, chunk, f);
            proof {
                lemma_filled_from_agreeing(
                    c0,
                    *chunk,
                    |x: int, y: int, z: int| face_voxel(f, site, hs.0, block_ranges@, x, y, z),
                    want,
                );
            }
        },
        (None, Some(f), None) => {
            do_face(site, &heights.y, block_ranges, chunk, f);
            proof {
                lemma_filled_from_agreeing(
                    c0,
                    *chunk,
                    |x: int, y: int, z: int| face_voxel(f, site, hs.1, block_ranges@, x, y, z),
                    want,
                );
            }
        },
        (None, None, Some(f)) => {
            do_face(site, &heights.z, block_ranges, chunk, f);
            proof {
                lemma_filled_from_agreeing(
                    c0,
                    *chunk,
                    |x: int, y: int, z: int| face_voxel(f, site, hs.2, block_ranges@, x, y, z),
                    want,
                );
            }
        },
        (None, None, None) => {
            proof {
                lemma_filled_from_agreeing(c0, *chunk, |x: int, y: int, z: int| None, want);
            }
        },
    }
}

// ---------------------------------------------------------------------------
// What the fills agree on at seams.

/// At an edge voxel, write `j_depth` and `k_depth` for how far it lies below
/// each face's (capped) top. A filled edge voxel gets the block that a single
/// face at the shallower of the two depths would give; so where the two depths
/// agree, the edge fill and either face's rule give the same block. A voxel on
/// both tops at once is never filled, and one on a single top takes that face
/// as its "up".
pub proof fn lemma_edge_seam(
    site: ChunkSite,
    j_up: BlockFace,
    k_up: BlockFace,
    j_heights: Seq<usize>,
    k_heights: Seq<usize>,
    ranges: Seq<(u16, usize)>,
    x: int,
    y: int,
    z: int,
)
    ensures
        ({
            let aj = axis_of(j_up);
            let ak = axis_of(k_up);
            let i = coord_on(third_axis(aj, ak), x, y, z);
            let j = coord_on(aj, x, y, z);
            let k = coord_on(ak, x, y, z);
            let first_45 = edge_first_45(site, j_up, k_up, j_heights, k_heights, i, j + 1);
            let k_top = edge_k_top(site, j_up, k_up, j_heights, k_heights, i, j);
            let j_top = lesser(edge_j_cache(site, j_up, k_up, j_heights, i, k), first_45);
            let j_depth = j_top - site.height_of(j_up, j);
            let k_depth = k_top - site.height_of(k_up, k);
            let v = edge_voxel(site, j_up, k_up, j_heights, k_heights, ranges, x, y, z);
            &&& v is Some ==> j_depth >= 0 && k_depth >= 0 && !(j_depth == 0 && k_depth == 0)
            &&& v is Some && j_depth <= k_depth ==> v->Some_0.0 == block_for_depth(ranges, j_depth)
            &&& v is Some && k_depth <= j_depth ==> v->Some_0.0 == block_for_depth(ranges, k_depth)
            &&& v is Some && k_depth == 0 ==> v->Some_0.1 == k_up
            &&& v is Some && j_depth == 0 ==> v->Some_0.1 == j_up
        }),
{
}

/// The corner counterpart of `lemma_edge_seam`: a filled corner voxel gets the
/// block of the shallowest of its three depths, so where two or three depths
/// agree the faces' rules give the same block; it lies on at most one top, and
/// takes that face as its "up".
pub proof fn lemma_corner_seam(
    site: ChunkSite,
    faces: (BlockFace, BlockFace, BlockFace),
    heights: (Seq<usize>, Seq<usize>, Seq<usize>),
    ranges: Seq<(u16, usize)>,
    i: int,
    j: int,
    k: int,
)
    ensures
        ({
            let (x_up, y_up, z_up) = faces;
            let first_45 = corner_first_45(site, faces, heights, i, j + 1);
            let x_top = lesser(corner_x_cache(site, x_up, y_up, z_up, heights.0, j, k), first_45);
            let y_top = lesser(corner_y_cache(site, x_up, y_up, z_up, heights.1, i, k), first_45);
            let z_top = corner_z_top(site, faces, heights, i, j);
            let dx = x_top - site.height_of(x_up, i);
            let dy = y_top - site.height_of(y_up, j);
            let dz = z_top - site.height_of(z_up, k);
            let v = corner_voxel(site, faces, heights, ranges, i, j, k);
            &&& v is Some ==> dx >= 0 && dy >= 0 && dz >= 0
            &&& v is Some ==> (if dx == 0 { 1int } else { 0 }) + (if dy == 0 { 1int } else { 0 }) + (if dz == 0 { 1int } else { 0 }) <= 1
            &&& v is Some ==> v->Some_0.0 == block_for_depth(ranges, min3(dx, dy, dz))
            &&& v is Some && dz == 0 ==> v->Some_0.1 == z_up
            &&& v is Some && dy == 0 ==> v->Some_0.1 == y_up
            &&& v is Some && dx == 0 ==> v->Some_0.1 == x_up
        }),
{
}

/// Away from the seam the edge fill is the face fill: where `k_up` does not
/// constrain a voxel of an edge chunk (its own 45 raise and the first shared 45
/// leave `j_up`'s top as sampled, the voxel is below `k_up`'s top, and no
/// deeper below it than below `j_up`'s), the edge fill fills it exactly when
/// the single-face fill of `j_up` does, with the same block.
pub proof fn lemma_edge_matches_face_off_seam(
    site: ChunkSite,
    j_up: BlockFace,
    k_up: BlockFace,
    j_heights: Seq<usize>,
    k_heights: Seq<usize>,
    ranges: Seq<(u16, usize)>,
    x: int,
    y: int,
    z: int,
)
    requires
        axis_of(j_up) != axis_of(k_up),
        in_chunk(x, y, z),
        ({
            let aj = axis_of(j_up);
            let ak = axis_of(k_up);
            let i = coord_on(third_axis(aj, ak), x, y, z);
            let j = coord_on(aj, x, y, z);
            let k = coord_on(ak, x, y, z);
            let raw = j_heights[col_index(aj, x, y, z)] as int;
            let k_top = edge_k_top(site, j_up, k_up, j_heights, k_heights, i, j);
            let k_height = site.height_of(k_up, k);
            &&& site.height_of(k_up, k) <= raw
            &&& raw <= edge_first_45(site, j_up, k_up, j_heights, k_heights, i, j + 1)
            &&& k_height < k_top
            &&& k_top - k_height >= raw - site.height_of(j_up, j)
        }),
    ensures
        edge_voxel(site, j_up, k_up, j_heights, k_heights, ranges, x, y, z) is Some == face_voxel(
            j_up,
            site,
            j_heights,
            ranges,
            x,
            y,
            z,
        ) is Some,
        edge_voxel(site, j_up, k_up, j_heights, k_heights, ranges, x, y, z) is Some ==> edge_voxel(
            site,
            j_up,
            k_up,
            j_heights,
            k_heights,
            ranges,
            x,
            y,
            z,
        )->Some_0.0 == face_voxel(j_up, site, j_heights, ranges, x, y, z)->Some_0.0,
{
    let aj = axis_of(j_up);
    let ak = axis_of(k_up);
    let i = coord_on(third_axis(aj, ak), x, y, z);
    let k = coord_on(ak, x, y, z);
    assert(placed_col(aj, aj, ak, i, 0, k) == col_index(aj, x, y, z));
}

/// The corner counterpart of `lemma_edge_matches_face_off_seam`: where
/// `x_up` and `y_up` do not constrain a voxel of a corner chunk, the corner
/// fill fills it exactly when the single-face fill of `z_up` does, with the
/// same block.
pub proof fn lemma_corner_matches_face_off_seam(
    site: ChunkSite,
    faces: (BlockFace, BlockFace, BlockFace),
    heights: (Seq<usize>, Seq<usize>, Seq<usize>),
    ranges: Seq<(u16, usize)>,
    i: int,
    j: int,
    k: int,
)
    requires
        axis_of(faces.2) == Axis::Z,
        in_chunk(i, j, k),
        ({
            let (x_up, y_up, z_up) = faces;
            let raw = heights.2[i * 32 + j] as int;
            let first_45 = corner_first_45(site, faces, heights, i, j + 1);
            let x_top = lesser(corner_x_cache(site, x_up, y_up, z_up, heights.0, j, k), first_45);
            let y_top = lesser(corner_y_cache(site, x_up, y_up, z_up, heights.1, i, k), first_45);
            let x_height = site.height_of(x_up, i);
            let y_height = site.height_of(y_up, j);
            let depth = raw - site.height_of(z_up, k);
            &&& x_height <= raw && y_height <= raw
            &&& raw <= corner_first_45(site, faces, heights, i, j)
            &&& x_height < x_top && y_height < y_top
            &&& x_top - x_height >= depth && y_top - y_height >= depth
        }),
    ensures
        corner_voxel(site, faces, heights, ranges, i, j, k) is Some == face_voxel(faces.2, site, heights.2, ranges, i, j, k) is Some,
        corner_voxel(site, faces, heights, ranges, i, j, k) is Some ==> corner_voxel(site, faces, heights, ranges, i, j, k)->Some_0.0
            == face_voxel(faces.2, site, heights.2, ranges, i, j, k)->Some_0.0,
{
}

/// Once both faces of an edge meet on the 45 in a row, neither rises above
/// that height again: the first shared 45 never grows along the row, and every
/// top the edge fill uses in a later column is at or below it.
pub proof fn lemma_edge_capped_after_meeting(
    site: ChunkSite,
    j_up: BlockFace,
    k_up: BlockFace,
    j_heights: Seq<usize>,
    k_heights: Seq<usize>,
    i: int,
    j1: int,
    j2: int,
    k: int,
)
    requires
        0 <= j1 <= j2,
    ensures
        edge_first_45(site, j_up, k_up, j_heights, k_heights, i, j2) <= edge_first_45(
            site,
            j_up,
            k_up,
            j_heights,
            k_heights,
            i,
            j1,
        ),
        edge_k_top(site, j_up, k_up, j_heights, k_heights, i, j2) <= edge_first_45(
            site,
            j_up,
            k_up,
            j_heights,
            k_heights,
            i,
            j1,
        ),
        lesser(
            edge_j_cache(site, j_up, k_up, j_heights, i, k),
            edge_first_45(site, j_up, k_up, j_heights, k_heights, i, j2 + 1),
        ) <= edge_first_45(site, j_up, k_up, j_heights, k_heights, i, j1),
    decreases j2 - j1,
{
    if j1 < j2 {
        lemma_edge_capped_after_meeting(site, j_up, k_up, j_heights, k_heights, i, j1 + 1, j2, k);
    }
    assert(edge_first_45(site, j_up, k_up, j_heights, k_heights, i, j2 + 1) <= edge_first_45(
        site,
        j_up,
        k_up,
        j_heights,
        k_heights,
        i,
        j2,
    ));
}

/// The corner counterpart of `lemma_edge_capped_after_meeting`: once all three
/// faces meet on the 45 in a row, the first shared 45 never grows along the
/// row, and every top the corner fill uses later is at or below it.
pub proof fn lemma_corner_capped_after_meeting(
    site: ChunkSite,
    faces: (BlockFace, BlockFace, BlockFace),
    heights: (Seq<usize>, Seq<usize>, Seq<usize>),
    i: int,
    j1: int,
    j2: int,
    k: int,
)
    requires
        0 <= j1 <= j2,
    ensures
        corner_first_45(site, faces, heights, i, j2) <= corner_first_45(site, faces, heights, i, j1),
        corner_z_top(site, faces, heights, i, j2) <= corner_first_45(site, faces, heights, i, j1),
        lesser(
            corner_x_cache(site, faces.0, faces.1, faces.2, heights.0, j2, k),
            corner_first_45(site, faces, heights, i, j2 + 1),
        ) <= corner_first_45(site, faces, heights, i, j1),
        lesser(
            corner_y_cache(site, faces.0, faces.1, faces.2, heights.1, i, k),
            corner_first_45(site, faces, heights, i, j2 + 1),
        ) <= corner_first_45(site, faces, heights, i, j1),
    decreases j2 - j1,
{
    if j1 < j2 {
        lemma_corner_capped_after_meeting(site, faces, heights, i, j1 + 1, j2, k);
    }
    assert(corner_first_45(site, faces, heights, i, j2 + 1) <= corner_first_45(site, faces, heights, i, j2));
}

} // verus!
