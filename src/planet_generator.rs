//! Deciding which chunks of a planet to generate and which to unload, and
//! keeping track of the generation work that is under way.
//!
//! Generation itself runs elsewhere: each chunk handed out here is filled by
//! one background task, and its result comes back through
//! `notify_when_done_generating`.

use vstd::prelude::*;
use crate::block::{BlockFace, AIR_BLOCK_ID};
use crate::chunk::{Chunk, N_BLOCKS};
use crate::structure::{ChunkState, Structure};

verus! {

/// How far (in chunks, on every axis) around an observer chunks are generated.
pub const GENERATION_RADIUS: i64 = 2;

/// How far (in chunks, on every axis) around an observer loaded chunks are kept.
/// Larger than `GENERATION_RADIUS`, so that a chunk on the border is not
/// generated and unloaded in turn.
pub const RETENTION_RADIUS: i64 = 3;

/// The chunk coordinates whose generation is under way, one entry per task.
#[derive(Debug)]
pub struct GeneratingChunks {
    generating: Vec<(usize, usize, usize)>,
}

/// Whether `(x, y, z)` has a task in `g`.
pub open spec fn in_flight(g: Seq<(usize, usize, usize)>, x: int, y: int, z: int) -> bool {
    exists|i: int| 0 <= i < g.len() && (#[trigger] g[i]).0 as int == x && g[i].1 as int == y && g[i].2 as int == z
}

/// Whether `(x, y, z)` is within `radius` of `(px, py, pz)` on every axis.
pub open spec fn near(px: int, py: int, pz: int, x: int, y: int, z: int, radius: int) -> bool {
    px - radius <= x <= px + radius && py - radius <= y <= py + radius && pz - radius <= z <= pz + radius
}

/// Whether some observer is within `radius` of `(x, y, z)`.
pub open spec fn near_any(observers: Seq<(i64, i64, i64)>, x: int, y: int, z: int, radius: int) -> bool {
    exists|i: int|
        0 <= i < observers.len() && near(
            #[trigger] observers[i].0 as int,
            observers[i].1 as int,
            observers[i].2 as int,
            x,
            y,
            z,
            radius,
        )
}

/// The tasks in `g` and the states of `s` agree: each task's coordinate is
/// loading, each loading coordinate has a task, and no coordinate has two.
pub open spec fn tracks(s: &Structure, g: &GeneratingChunks) -> bool {
    &&& s.wf()
    &&& g@.no_duplicates()
    &&& forall|i: int| 0 <= i < g@.len() ==> s.state(
        (#[trigger] g@[i]).0 as int,
        g@[i].1 as int,
        g@[i].2 as int,
    ) == ChunkState::Loading
    &&& forall|x: int, y: int, z: int| #[trigger] s.state(x, y, z) == ChunkState::Loading ==> in_flight(g@, x, y, z)
}

/// The coordinates of a sequence of chunks.
pub open spec fn coords_of(chunks: Seq<Chunk>) -> Seq<(usize, usize, usize)> {
    chunks.map_values(|c: Chunk| c.coords())
}

/// An all-air chunk at `(x, y, z)`.
pub open spec fn is_empty_chunk_at(c: Chunk, x: usize, y: usize, z: usize) -> bool {
    &&& c.wf()
    &&& c.coords() == (x, y, z)
    &&& forall|i: int| 0 <= i < N_BLOCKS ==> #[trigger] c.blocks_view()[i] == AIR_BLOCK_ID
    &&& forall|i: int| 0 <= i < N_BLOCKS ==> #[trigger] c.ups_view()[i] == BlockFace::Top
}

impl GeneratingChunks {
    /// The coordinates of the tasks under way, in the order they started.
    pub closed spec fn view(&self) -> Seq<(usize, usize, usize)> {
        self.generating@
    }

    /// No generation under way.
    pub fn new() -> (r: Self)
        ensures
            r@ == Seq::<(usize, usize, usize)>::empty(),
    {
        GeneratingChunks { generating: Vec::new() }
    }

    /// The number of tasks under way.
    pub fn len(&self) -> (r: usize)
        ensures
            r == self@.len(),
    {
        self.generating.len()
    }

    /// Whether chunk `(x, y, z)` has a task under way.
    pub fn is_generating(&self, x: usize, y: usize, z: usize) -> (r: bool)
        ensures
            r == in_flight(self@, x as int, y as int, z as int),
    {
        self.find(x, y, z).is_some()
    }

    fn find(&self, x: usize, y: usize, z: usize) -> (r: Option<usize>)
        ensures
            r is Some == in_flight(self@, x as int, y as int, z as int),
            r is Some ==> r->Some_0 < self@.len() && self@[r->Some_0 as int] == (x, y, z),
    {
        let mut i: usize = 0;
        while i < self.generating.len()
            invariant
                i <= self.generating@.len(),
                forall|j: int| 0 <= j < i ==> self.generating@[j] != (x, y, z),
            decreases self.generating@.len() - i,
        {
            let (a, b, c) = self.generating[i];
            if a == x && b == y && c == z {
                return Some(i);
            }
            i += 1;
        }
        None
    }
}

/// While the tasks track the structure, no chunk coordinate has more than one
/// generation task.
pub proof fn lemma_one_task_per_chunk(s: &Structure, g: &GeneratingChunks, i: int, j: int)
    requires
        tracks(s, g),
        0 <= i < g@.len(),
        0 <= j < g@.len(),
        i != j,
    ensures
        g@[i] != g@[j],
{
}

/// Marks unloaded chunk `(x, y, z)` as loading and records its task; returns
/// the empty chunk for the task to fill.
fn start_generating(structure: &mut Structure, generating: &mut GeneratingChunks, x: usize, y: usize, z: usize) -> (r: Chunk)
    requires
        tracks(old(structure), old(generating)),
        old(structure).state(x as int, y as int, z as int) == ChunkState::Unloaded,
    ensures
        tracks(final(structure), final(generating)),
        final(structure).dims() == old(structure).dims(),
        final(structure).entity() == old(structure).entity(),
        final(structure).state(x as int, y as int, z as int) == ChunkState::Loading,
        old(structure).same_except(final(structure), x as int, y as int, z as int),
        final(generating)@ == old(generating)@.push((x, y, z)),
        is_empty_chunk_at(r, x, y, z),
{
    proof {
        old(structure).lemma_state_facts(x as int, y as int, z as int);
    }
    let chunk = structure.take_or_create_chunk_for_loading(x, y, z);
    let ghost g0 = generating@;
    generating.generating.push((x, y, z));
    proof {
        assert(!in_flight(g0, x as int, y as int, z as int));
        assert forall|i: int, j: int| 0 <= i < generating@.len() && 0 <= j < generating@.len() && i != j implies generating@[i]
            != generating@[j] by {
            if i < g0.len() && j < g0.len() {
                assert(g0[i] != g0[j]);
            } else if i < g0.len() {
                assert(g0[i] == generating@[i]);
            } else {
                assert(g0[j] == generating@[j]);
            }
        }
        assert forall|i: int| 0 <= i < generating@.len() implies structure.state(
            (#[trigger] generating@[i]).0 as int,
            generating@[i].1 as int,
            generating@[i].2 as int,
        ) == ChunkState::Loading by {
            if i < g0.len() {
                assert(g0[i] == generating@[i]);
                assert(old(structure).state(g0[i].0 as int, g0[i].1 as int, g0[i].2 as int) == ChunkState::Loading);
            }
        }
        assert forall|a: int, b: int, c: int| #[trigger] structure.state(a, b, c) == ChunkState::Loading implies in_flight(
            generating@,
            a,
            b,
            c,
        ) by {
            if a == x && b == y && c == z {
                assert(generating@[g0.len() as int] == (x, y, z));
            } else {
                assert(old(structure).state(a, b, c) == ChunkState::Loading);
                let i = choose|i: int| 0 <= i < g0.len() && (#[trigger] g0[i]).0 as int == a && g0[i].1 as int == b && g0[i].2 as int == c;
                assert(generating@[i] == g0[i]);
            }
        }
    }
    chunk
}

/// What a request for a chunk comes to.
#[derive(Debug)]
pub enum ChunkRequest {
    /// The chunk is loaded: its blocks can be sent.
    Ready,
    /// The chunk is being generated: ask again later.
    Bounce,
    /// Generation of the chunk started now with this empty chunk: fill it in
    /// the background, and ask again later.
    Generate(Chunk),
    /// The coordinate is outside the structure.
    Invalid,
}

/// Handles a request for chunk `(x, y, z)`: starts its generation if it is
/// unloaded, and never starts a second task for a chunk that is loading.
pub fn get_requested_chunk(
    structure: &mut Structure,
    generating: &mut GeneratingChunks,
    x: usize,
    y: usize,
    z: usize,
) -> (r: ChunkRequest)
    requires
        tracks(old(structure), old(generating)),
    ensures
        tracks(final(structure), final(generating)),
        final(structure).dims() == old(structure).dims(),
        final(structure).entity() == old(structure).entity(),
        match old(structure).state(x as int, y as int, z as int) {
            ChunkState::Unloaded => {
                &&& r is Generate && is_empty_chunk_at(r->Generate_0, x, y, z)
                &&& final(structure).state(x as int, y as int, z as int) == ChunkState::Loading
                &&& old(structure).same_except(final(structure), x as int, y as int, z as int)
                &&& final(generating)@ == old(generating)@.push((x, y, z))
            },
            st => {
                &&& (r is Ready) == (st == ChunkState::Loaded)
                &&& (r is Bounce) == (st == ChunkState::Loading)
                &&& (r is Invalid) == (st == ChunkState::Invalid)
                &&& *final(structure) == *old(structure)
                &&& final(generating)@ == old(generating)@
            },
        },
{
    match structure.get_chunk_state(x, y, z) {
        ChunkState::Loaded => ChunkRequest::Ready,
        ChunkState::Loading => ChunkRequest::Bounce,
        ChunkState::Invalid => ChunkRequest::Invalid,
        ChunkState::Unloaded => ChunkRequest::Generate(start_generating(structure, generating, x, y, z)),
    }
}

/// The first coordinate in `0..dim` within `radius` of `p` (or `dim`).
pub open spec fn range_lo(p: int, radius: int, dim: int) -> int {
    if p - radius <= 0 {
        0
    } else if p - radius >= dim {
        dim
    } else {
        p - radius
    }
}

/// One past the last coordinate in `0..dim` within `radius` of `p`
/// (never below `range_lo`).
pub open spec fn range_hi(p: int, radius: int, dim: int) -> int {
    let lo = range_lo(p, radius, dim);
    if p + radius + 1 <= lo {
        lo
    } else if p + radius + 1 >= dim {
        dim
    } else {
        p + radius + 1
    }
}

/// The chunk coordinates on one axis of a structure of size `dim` that lie
/// within `radius` of `p`, as the range `lo..hi`.
fn axis_range(p: i64, radius: i64, dim: usize) -> (r: (usize, usize))
    requires
        0 <= radius <= 8,
    ensures
        r.0 <= r.1 <= dim,
        r.0 == range_lo(p as int, radius as int, dim as int),
        r.1 == range_hi(p as int, radius as int, dim as int),
{
    let lo_i: i128 = p as i128 - radius as i128;
    let hi_i: i128 = p as i128 + radius as i128 + 1;
    let d: i128 = dim as i128;
    let lo: usize = if lo_i <= 0 {
        0
    } else if lo_i >= d {
        dim
    } else {
        lo_i as usize
    };
    let hi: usize = if hi_i <= lo as i128 {
        lo
    } else if hi_i >= d {
        dim
    } else {
        hi_i as usize
    };
    (lo, hi)
}

/// Whether `(a, b, c)` comes before `(x, y, z)` in x-major order.
pub open spec fn before(a: int, b: int, c: int, x: int, y: int, z: int) -> bool {
    a < x || (a == x && (b < y || (b == y && c < z)))
}

/// Starts generation of every unloaded chunk within `GENERATION_RADIUS` of the
/// observer at chunk coordinate `(px, py, pz)`, and returns the empty chunks
/// for the tasks to fill.
pub fn generate_chunks_near_players(
    structure: &mut Structure,
    generating: &mut GeneratingChunks,
    px: i64,
    py: i64,
    pz: i64,
) -> (r: Vec<Chunk>)
    requires
        tracks(old(structure), old(generating)),
    ensures
        tracks(final(structure), final(generating)),
        final(structure).dims() == old(structure).dims(),
        final(structure).entity() == old(structure).entity(),
        forall|a: int, b: int, c: int| #[trigger] final(structure).state(a, b, c) == if old(structure).state(a, b, c)
            == ChunkState::Unloaded && near(px as int, py as int, pz as int, a, b, c, GENERATION_RADIUS as int) {
            ChunkState::Loading
        } else {
            old(structure).state(a, b, c)
        },
        forall|a: int, b: int, c: int| #[trigger] final(structure).loaded_chunk(a, b, c) == old(structure).loaded_chunk(a, b, c),
        final(generating)@ == old(generating)@ + coords_of(r@),
        forall|i: int| 0 <= i < r@.len() ==> is_empty_chunk_at(#[trigger] r@[i], r@[i].coords().0, r@[i].coords().1, r@[i].coords().2),
{
    let ghost s0 = *structure;
    let ghost g0 = generating@;
    let rd = GENERATION_RADIUS;
    let (x0, x1) = axis_range(px, rd, structure.chunks_width());
    let (y0, y1) = axis_range(py, rd, structure.chunks_height());
    let (z0, z1) = axis_range(pz, rd, structure.chunks_length());
    let mut result: Vec<Chunk> = Vec::new();
    let mut x = x0;
    while x < x1
        invariant
            x0 <= x <= x1,
            y0 <= y1,
            z0 <= z1,
            x0 == range_lo(px as int, rd as int, s0.dims().0 as int) && x1 == range_hi(px as int, rd as int, s0.dims().0 as int),
            y0 == range_lo(py as int, rd as int, s0.dims().1 as int) && y1 == range_hi(py as int, rd as int, s0.dims().1 as int),
            z0 == range_lo(pz as int, rd as int, s0.dims().2 as int) && z1 == range_hi(pz as int, rd as int, s0.dims().2 as int),
            rd == GENERATION_RADIUS,
            tracks(structure, generating),
            structure.dims() == s0.dims(),
            structure.entity() == s0.entity(),
            forall|a: int, b: int, c: int| #[trigger] structure.state(a, b, c) == if s0.state(a, b, c)
                == ChunkState::Unloaded && x0 <= a < x && y0 <= b < y1 && z0 <= c < z1 {
                ChunkState::Loading
            } else {
                s0.state(a, b, c)
            },
            forall|a: int, b: int, c: int| #[trigger] structure.loaded_chunk(a, b, c) == s0.loaded_chunk(a, b, c),
            generating@ == g0 + coords_of(result@),
            forall|i: int| 0 <= i < result@.len() ==> is_empty_chunk_at(#[trigger] result@[i], result@[i].coords().0, result@[i].coords().1, result@[i].coords().2),
        decreases x1 - x,
    {
        let mut y = y0;
        while y < y1
            invariant
                x0 <= x < x1,
                y0 <= y <= y1,
                z0 <= z1,
                x0 == range_lo(px as int, rd as int, s0.dims().0 as int) && x1 == range_hi(px as int, rd as int, s0.dims().0 as int),
                y0 == range_lo(py as int, rd as int, s0.dims().1 as int) && y1 == range_hi(py as int, rd as int, s0.dims().1 as int),
                z0 == range_lo(pz as int, rd as int, s0.dims().2 as int) && z1 == range_hi(pz as int, rd as int, s0.dims().2 as int),
                rd == GENERATION_RADIUS,
                tracks(structure, generating),
                structure.dims() == s0.dims(),
                structure.entity() == s0.entity(),
                forall|a: int, b: int, c: int| #[trigger] structure.state(a, b, c) == if s0.state(a, b, c)
                    == ChunkState::Unloaded && x0 <= a <= x && y0 <= b < y1 && z0 <= c < z1 && before(a, b, c, x as int, y as int, z0 as int) {
                    ChunkState::Loading
                } else {
                    s0.state(a, b, c)
                },
                forall|a: int, b: int, c: int| #[trigger] structure.loaded_chunk(a, b, c) == s0.loaded_chunk(a, b, c),
                generating@ == g0 + coords_of(result@),
                forall|i: int| 0 <= i < result@.len() ==> is_empty_chunk_at(#[trigger] result@[i], result@[i].coords().0, result@[i].coords().1, result@[i].coords().2),
            decreases y1 - y,
        {
            let mut z = z0;
            while z < z1
                invariant
                    x0 <= x < x1,
                    y0 <= y < y1,
                    z0 <= z <= z1,
                    x0 == range_lo(px as int, rd as int, s0.dims().0 as int) && x1 == range_hi(px as int, rd as int, s0.dims().0 as int),
                    y0 == range_lo(py as int, rd as int, s0.dims().1 as int) && y1 == range_hi(py as int, rd as int, s0.dims().1 as int),
                    z0 == range_lo(pz as int, rd as int, s0.dims().2 as int) && z1 == range_hi(pz as int, rd as int, s0.dims().2 as int),
                    rd == GENERATION_RADIUS,
                    tracks(structure, generating),
                    structure.dims() == s0.dims(),
                    structure.entity() == s0.entity(),
                    forall|a: int, b: int, c: int| #[trigger] structure.state(a, b, c) == if s0.state(a, b, c)
                        == ChunkState::Unloaded && x0 <= a <= x && y0 <= b < y1 && z0 <= c < z1 && before(a, b, c, x as int, y as int, z as int) {
                        ChunkState::Loading
                    } else {
                        s0.state(a, b, c)
                    },
                    forall|a: int, b: int, c: int| #[trigger] structure.loaded_chunk(a, b, c) == s0.loaded_chunk(a, b, c),
                    generating@ == g0 + coords_of(result@),
                    forall|i: int| 0 <= i < result@.len() ==> is_empty_chunk_at(#[trigger] result@[i], result@[i].coords().0, result@[i].coords().1, result@[i].coords().2),
                decreases z1 - z,
            {
                if structure.get_chunk_state(x, y, z) == ChunkState::Unloaded {
                    let ghost sb = *structure;
                    let ghost rb = result@;
                    let chunk = start_generating(structure, generating, x, y, z);
                    result.push(chunk);
                    proof {
                        assert(coords_of(result@) =~= coords_of(rb).push((x, y, z)));
                        assert forall|a: int, b: int, c: int| #[trigger] structure.loaded_chunk(a, b, c) == s0.loaded_chunk(a, b, c) by {
                            assert(sb.loaded_chunk(a, b, c) == s0.loaded_chunk(a, b, c));
                            if a == x && b == y && c == z {
                                sb.lemma_state_facts(a, b, c);
                                structure.lemma_state_facts(a, b, c);
                            } else {
                                assert(structure.loaded_chunk(a, b, c) == sb.loaded_chunk(a, b, c));
                            }
                        }
                    }
                }
                z += 1;
            }
            y += 1;
        }
        x += 1;
    }
    proof {
        assert forall|a: int, b: int, c: int| #[trigger] structure.state(a, b, c) == if s0.state(a, b, c)
            == ChunkState::Unloaded && near(px as int, py as int, pz as int, a, b, c, GENERATION_RADIUS as int) {
            ChunkState::Loading
        } else {
            s0.state(a, b, c)
        } by {
            s0.lemma_state_facts(a, b, c);
        }
    }
    result
}

/// Whether some observer is within `radius` of chunk `(x, y, z)`.
fn near_any_exec(observers: &Vec<(i64, i64, i64)>, x: usize, y: usize, z: usize, radius: i64) -> (r: bool)
    ensures
        r == near_any(observers@, x as int, y as int, z as int, radius as int),
{
    let mut i: usize = 0;
    while i < observers.len()
        invariant
            i <= observers@.len(),
            forall|j: int| 0 <= j < i ==> !near(
                #[trigger] observers@[j].0 as int,
                observers@[j].1 as int,
                observers@[j].2 as int,
                x as int,
                y as int,
                z as int,
                radius as int,
            ),
        decreases observers@.len() - i,
    {
        let (ox, oy, oz) = observers[i];
        let r = radius as i128;
        if ox as i128 - r <= x as i128 && x as i128 <= ox as i128 + r && oy as i128 - r <= y as i128 && y as i128
            <= oy as i128 + r && oz as i128 - r <= z as i128 && z as i128 <= oz as i128 + r {
            return true;
        }
        i += 1;
    }
    false
}

/// Whether chunk `(x, y, z)` is loaded in `s` with no observer within `RETENTION_RADIUS`.
pub open spec fn unwanted(s: &Structure, observers: Seq<(i64, i64, i64)>, x: int, y: int, z: int) -> bool {
    s.state(x, y, z) == ChunkState::Loaded && !near_any(observers, x, y, z, RETENTION_RADIUS as int)
}

/// Unloads every loaded chunk that no observer (given by chunk coordinate) is
/// within `RETENTION_RADIUS` of, and returns their coordinates.
pub fn unload_chunks_far_from_players(structure: &mut Structure, observers: &Vec<(i64, i64, i64)>) -> (r: Vec<(usize, usize, usize)>)
    requires
        old(structure).wf(),
    ensures
        final(structure).wf(),
        final(structure).dims() == old(structure).dims(),
        final(structure).entity() == old(structure).entity(),
        forall|a: int, b: int, c: int| #[trigger] final(structure).state(a, b, c) == if unwanted(old(structure), observers@, a, b, c) {
            ChunkState::Unloaded
        } else {
            old(structure).state(a, b, c)
        },
        forall|a: int, b: int, c: int| #[trigger] final(structure).loaded_chunk(a, b, c) == if unwanted(old(structure), observers@, a, b, c) {
            None
        } else {
            old(structure).loaded_chunk(a, b, c)
        },
        forall|a: int, b: int, c: int| #[trigger] in_flight(r@, a, b, c) == unwanted(old(structure), observers@, a, b, c),
        r@.no_duplicates(),
{
    let ghost s0 = *structure;
    let w = structure.chunks_width();
    let h = structure.chunks_height();
    let l = structure.chunks_length();
    let mut result: Vec<(usize, usize, usize)> = Vec::new();
    let mut x: usize = 0;
    proof {
        assert forall|a: int, b: int, c: int| #[trigger] in_flight(result@, a, b, c) == false by {}
    }
    while x < w
        invariant
            x <= w,
            w == s0.dims().0,
            h == s0.dims().1,
            l == s0.dims().2,
            structure.wf(),
            structure.dims() == s0.dims(),
            structure.entity() == s0.entity(),
            forall|a: int, b: int, c: int| #[trigger] structure.state(a, b, c) == if unwanted(&s0, observers@, a, b, c) && 0 <= a < x && 0 <= b < h && 0 <= c < l { ChunkState::Unloaded } else { s0.state(a, b, c) },
                forall|a: int, b: int, c: int| #[trigger] structure.loaded_chunk(a, b, c) == if unwanted(&s0, observers@, a, b, c) && 0 <= a < x && 0 <= b < h && 0 <= c < l { None } else { s0.loaded_chunk(a, b, c) },
                forall|a: int, b: int, c: int| #[trigger] in_flight(result@, a, b, c) == (unwanted(&s0, observers@, a, b, c) && 0 <= a < x && 0 <= b < h && 0 <= c < l),
            result@.no_duplicates(),
        decreases w - x,
    {
        let mut y: usize = 0;
        while y < h
            invariant
                x < w,
                y <= h,
                w == s0.dims().0,
                h == s0.dims().1,
                l == s0.dims().2,
                structure.wf(),
                structure.dims() == s0.dims(),
                structure.entity() == s0.entity(),
                forall|a: int, b: int, c: int| #[trigger] structure.state(a, b, c) == if unwanted(&s0, observers@, a, b, c) && 0 <= a && 0 <= b < h && 0 <= c < l && before(a, b, c, x as int, y as int, 0) { ChunkState::Unloaded } else { s0.state(a, b, c) },
                forall|a: int, b: int, c: int| #[trigger] structure.loaded_chunk(a, b, c) == if unwanted(&s0, observers@, a, b, c) && 0 <= a && 0 <= b < h && 0 <= c < l && before(a, b, c, x as int, y as int, 0) { None } else { s0.loaded_chunk(a, b, c) },
                forall|a: int, b: int, c: int| #[trigger] in_flight(result@, a, b, c) == (unwanted(&s0, observers@, a, b, c) && 0 <= a && 0 <= b < h && 0 <= c < l && before(a, b, c, x as int, y as int, 0)),
                result@.no_duplicates(),
            decreases h - y,
        {
            let mut z: usize = 0;
            while z < l
                invariant
                    x < w,
                    y < h,
                    z <= l,
                    w == s0.dims().0,
                    h == s0.dims().1,
                    l == s0.dims().2,
                    structure.wf(),
                    structure.dims() == s0.dims(),
                    structure.entity() == s0.entity(),
                    forall|a: int, b: int, c: int| #[trigger] structure.state(a, b, c) == if unwanted(&s0, observers@, a, b, c) && 0 <= a && 0 <= b < h && 0 <= c < l && before(a, b, c, x as int, y as int, z as int) { ChunkState::Unloaded } else { s0.state(a, b, c) },
                forall|a: int, b: int, c: int| #[trigger] structure.loaded_chunk(a, b, c) == if unwanted(&s0, observers@, a, b, c) && 0 <= a && 0 <= b < h && 0 <= c < l && before(a, b, c, x as int, y as int, z as int) { None } else { s0.loaded_chunk(a, b, c) },
                forall|a: int, b: int, c: int| #[trigger] in_flight(result@, a, b, c) == (unwanted(&s0, observers@, a, b, c) && 0 <= a && 0 <= b < h && 0 <= c < l && before(a, b, c, x as int, y as int, z as int)),
                    result@.no_duplicates(),
                decreases l - z,
            {
                if structure.get_chunk_state(x, y, z) == ChunkState::Loaded && !near_any_exec(observers, x, y, z, RETENTION_RADIUS) {
                    let ghost rb = result@;
                    proof {
                        assert(!in_flight(rb, x as int, y as int, z as int));
                        assert(unwanted(&s0, observers@, x as int, y as int, z as int));
                    }
                    structure.unload_chunk_at(x, y, z);
                    result.push((x, y, z));
                    proof {
                        assert forall|a: int, b: int, c: int| in_flight(result@, a, b, c) == (in_flight(rb, a, b, c) || (a == x && b == y && c == z))
                            by {
                            if in_flight(result@, a, b, c) {
                                let i = choose|i: int| 0 <= i < result@.len() && (#[trigger] result@[i]).0 as int == a && result@[i].1 as int == b && result@[i].2 as int == c;
                                if i < rb.len() {
                                    assert(rb[i] == result@[i]);
                                }
                            }
                            if in_flight(rb, a, b, c) {
                                let i = choose|i: int| 0 <= i < rb.len() && (#[trigger] rb[i]).0 as int == a && rb[i].1 as int == b && rb[i].2 as int == c;
                                assert(result@[i] == rb[i]);
                            }
                            if a == x && b == y && c == z {
                                assert(result@[rb.len() as int] == (x, y, z));
                            }
                        }
                        assert forall|a: int, b: int, c: int| #[trigger] in_flight(result@, a, b, c) == (unwanted(&s0, observers@, a, b, c) && 0 <= a && 0 <= b < h && 0 <= c < l && before(a, b, c, x as int, y as int, z as int + 1)) by {
                            assert(in_flight(result@, a, b, c) == (in_flight(rb, a, b, c) || (a == x && b == y && c == z)));
                        }
                    }
                }
                z += 1;
            }
            y += 1;
        }
        x += 1;
    }
    proof {
        assert forall|a: int, b: int, c: int| unwanted(&s0, observers@, a, b, c) implies 0 <= a < w && 0 <= b < h && 0 <= c < l by {
            s0.lemma_state_facts(a, b, c);
        }
    }
    result
}

/// Merges a chunk whose generation finished: if its coordinate has a task,
/// the chunk is stored and loaded and the task is done. Returns whether it was
/// merged.
pub fn notify_when_done_generating(structure: &mut Structure, generating: &mut GeneratingChunks, chunk: Chunk) -> (r: bool)
    requires
        tracks(old(structure), old(generating)),
        chunk.wf(),
    ensures
        tracks(final(structure), final(generating)),
        final(structure).dims() == old(structure).dims(),
        final(structure).entity() == old(structure).entity(),
        r == in_flight(old(generating)@, chunk.coords().0 as int, chunk.coords().1 as int, chunk.coords().2 as int),
        r ==> {
            let (x, y, z) = (chunk.coords().0 as int, chunk.coords().1 as int, chunk.coords().2 as int);
            &&& final(structure).state(x, y, z) == ChunkState::Loaded
            &&& final(structure).loaded_chunk(x, y, z) == Some(chunk)
            &&& old(structure).same_except(final(structure), x, y, z)
            &&& exists|i: int|
                0 <= i < old(generating)@.len() && #[trigger] old(generating)@[i] == chunk.coords()
                    && final(generating)@ == old(generating)@.remove(i)
            &&& forall|a: int, b: int, c: int| #[trigger] in_flight(final(generating)@, a, b, c) == (in_flight(old(generating)@, a, b, c)
                && !(a == x && b == y && c == z))
        },
        !r ==> *final(structure) == *old(structure) && final(generating)@ == old(generating)@,
{
    let x = chunk.structure_x();
    let y = chunk.structure_y();
    let z = chunk.structure_z();
    match generating.find(x, y, z) {
        Some(i) => {
            let ghost g0 = generating@;
            proof {
                structure.lemma_state_facts(x as int, y as int, z as int);
            }
            generating.generating.remove(i);
            structure.set_chunk(chunk);
            proof {
                let g1 = generating@;
                assert(g1 =~= g0.remove(i as int));
                assert(g0[i as int] == chunk.coords());
                assert forall|j: int| 0 <= j < g1.len() implies #[trigger] g1[j] == (if j < i { g0[j] } else { g0[j + 1] }) by {}
                assert forall|a: int, b: int, c: int| #[trigger] in_flight(g1, a, b, c) == (in_flight(g0, a, b, c)
                    && !(a == x && b == y && c == z)) by {
                    if in_flight(g1, a, b, c) {
                        let j = choose|j: int| 0 <= j < g1.len() && (#[trigger] g1[j]).0 as int == a && g1[j].1 as int == b && g1[j].2 as int == c;
                        if j < i {
                            assert(g0[j] == g1[j]);
                        } else {
                            assert(g0[j + 1] == g1[j]);
                        }
                    }
                    if in_flight(g0, a, b, c) && !(a == x && b == y && c == z) {
                        let j = choose|j: int| 0 <= j < g0.len() && (#[trigger] g0[j]).0 as int == a && g0[j].1 as int == b && g0[j].2 as int == c;
                        if j < i {
                            assert(g1[j] == g0[j]);
                        } else {
                            assert(j != i);
                            assert(g1[j - 1] == g0[j]);
                        }
                    }
                }
                assert(g1.no_duplicates()) by {
                    assert forall|p: int, q: int| 0 <= p < g1.len() && 0 <= q < g1.len() && p != q implies g1[p] != g1[q] by {
                        let p0 = if p < i { p } else { p + 1 };
                        let q0 = if q < i { q } else { q + 1 };
                        assert(g0[p0] != g0[q0]);
                    }
                }
                assert forall|j: int| 0 <= j < g1.len() implies structure.state(
                    (#[trigger] g1[j]).0 as int,
                    g1[j].1 as int,
                    g1[j].2 as int,
                ) == ChunkState::Loading by {
                    let j0 = if j < i { j } else { j + 1 };
                    assert(g0[j0] == g1[j]);
                    assert(g0[j0] != g0[i as int]);
                }
                assert forall|a: int, b: int, c: int| #[trigger] structure.state(a, b, c) == ChunkState::Loading implies in_flight(
                    g1, a, b, c) by {
                    assert(!(a == x && b == y && c == z));
                    assert(old(structure).state(a, b, c) == ChunkState::Loading);
                }
            }
            true
        },
        None => false,
    }
}

} // verus!
