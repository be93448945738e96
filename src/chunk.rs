//! A fixed-size cube of blocks, the unit of generation, storage and transfer.

use vstd::prelude::*;
use crate::array_utils::{expand, expanded, flat_index, flatten, lemma_expand_flatten};
use crate::block::{BlockFace, AIR_BLOCK_ID};

verus! {

/// The side of a chunk, in blocks.
pub const CHUNK_DIMENSIONS: usize = 32;

/// The number of blocks in a chunk.
pub const N_BLOCKS: usize = 32768;

/// Where the block at chunk-local `(x, y, z)` is stored.
pub open spec fn voxel_index(x: int, y: int, z: int) -> int {
    flat_index(x, y, z, CHUNK_DIMENSIONS as int, CHUNK_DIMENSIONS as int)
}

/// Whether `(x, y, z)` lies inside a chunk.
pub open spec fn in_chunk(x: int, y: int, z: int) -> bool {
    0 <= x < CHUNK_DIMENSIONS && 0 <= y < CHUNK_DIMENSIONS && 0 <= z < CHUNK_DIMENSIONS
}

/// Every in-chunk coordinate is stored inside the chunk's arrays.
pub proof fn lemma_voxel_index_bounds(x: int, y: int, z: int)
    requires
        in_chunk(x, y, z),
    ensures
        0 <= voxel_index(x, y, z) < N_BLOCKS,
{
    assert(0 <= z * (32 * 32) + y * 32 + x < 32768) by (nonlinear_arith)
        requires
            0 <= x < 32,
            0 <= y < 32,
            0 <= z < 32,
    ;
}

fn voxel(x: usize, y: usize, z: usize) -> (r: usize)
    requires
        in_chunk(x as int, y as int, z as int),
    ensures
        r as int == voxel_index(x as int, y as int, z as int),
        r < N_BLOCKS,
{
    proof {
        lemma_voxel_index_bounds(x as int, y as int, z as int);
    }
    flatten(x, y, z, CHUNK_DIMENSIONS, CHUNK_DIMENSIONS)
}

/// The in-chunk coordinate stored at index `n`.
pub open spec fn voxel_coords(n: int) -> (int, int, int) {
    expanded(n, CHUNK_DIMENSIONS as int, CHUNK_DIMENSIONS as int)
}

/// The block id and "up" face a fill leaves at a voxel that held `old`.
pub open spec fn after_fill<T>(old: T, v: Option<T>) -> T {
    match v {
        Some(t) => t,
        None => old,
    }
}

/// What a fill rule gives at one voxel, split into block and face.
pub open spec fn fill_block(v: Option<(u16, BlockFace)>) -> Option<u16> {
    match v {
        Some(p) => Some(p.0),
        None => None,
    }
}

/// What a fill rule gives at one voxel, split into block and face.
pub open spec fn fill_up(v: Option<(u16, BlockFace)>) -> Option<BlockFace> {
    match v {
        Some(p) => Some(p.1),
        None => None,
    }
}

/// `new` is `old` where every voxel for which `fill` gives a block and an
/// "up" face holds them, and every other voxel is as it was.
pub open spec fn filled_from(
    old: Chunk,
    new: Chunk,
    fill: spec_fn(int, int, int) -> Option<(u16, BlockFace)>,
) -> bool {
    &&& new.wf()
    &&& new.coords() == old.coords()
    &&& forall|x: int, y: int, z: int|
        in_chunk(x, y, z) ==> #[trigger] new.block_spec(x, y, z) == after_fill(
            old.block_spec(x, y, z),
            fill_block(fill(x, y, z)),
        ) && new.up_spec(x, y, z) == after_fill(old.up_spec(x, y, z), fill_up(fill(x, y, z)))
}

/// Two fill rules that agree on every voxel fill a chunk alike.
pub proof fn lemma_filled_from_agreeing(
    old: Chunk,
    new: Chunk,
    f: spec_fn(int, int, int) -> Option<(u16, BlockFace)>,
    g: spec_fn(int, int, int) -> Option<(u16, BlockFace)>,
)
    requires
        filled_from(old, new, f),
        forall|x: int, y: int, z: int| in_chunk(x, y, z) ==> #[trigger] f(x, y, z) == g(x, y, z),
    ensures
        filled_from(old, new, g),
{
    assert forall|x: int, y: int, z: int| in_chunk(x, y, z) implies #[trigger] new.block_spec(x, y, z) == after_fill(
        old.block_spec(x, y, z),
        fill_block(g(x, y, z)),
    ) && new.up_spec(x, y, z) == after_fill(old.up_spec(x, y, z), fill_up(g(x, y, z))) by {
        assert(f(x, y, z) == g(x, y, z));
        assert(new.block_spec(x, y, z) == after_fill(old.block_spec(x, y, z), fill_block(f(x, y, z))));
        assert(new.up_spec(x, y, z) == after_fill(old.up_spec(x, y, z), fill_up(f(x, y, z))));
    }
}

/// A fixed-size 3d block of block ids, each with the face that points "up" for it,
/// plus its own coordinate within the structure.
#[derive(Debug)]
pub struct Chunk {
    structure_x: usize,
    structure_y: usize,
    structure_z: usize,
    blocks: Vec<u16>,
    block_ups: Vec<BlockFace>,
}

impl Chunk {
    /// The chunk's arrays hold one entry per block.
    pub open spec fn wf(&self) -> bool {
        self.blocks_view().len() == N_BLOCKS && self.ups_view().len() == N_BLOCKS
    }

    /// The block ids, indexed by `voxel_index`.
    pub closed spec fn blocks_view(&self) -> Seq<u16> {
        self.blocks@
    }

    /// The "up" face of each block, indexed by `voxel_index`.
    pub closed spec fn ups_view(&self) -> Seq<BlockFace> {
        self.block_ups@
    }

    /// The chunk's coordinate within its structure.
    pub closed spec fn coords(&self) -> (usize, usize, usize) {
        (self.structure_x, self.structure_y, self.structure_z)
    }

    /// The block at chunk-local `(x, y, z)`.
    pub open spec fn block_spec(&self, x: int, y: int, z: int) -> u16 {
        self.blocks_view()[voxel_index(x, y, z)]
    }

    /// The "up" face of the block at chunk-local `(x, y, z)`.
    pub open spec fn up_spec(&self, x: int, y: int, z: int) -> BlockFace {
        self.ups_view()[voxel_index(x, y, z)]
    }

    /// An empty (all-air) chunk at the given chunk coordinate.
    pub fn new(structure_x: usize, structure_y: usize, structure_z: usize) -> (r: Chunk)
        ensures
            r.wf(),
            r.coords() == (structure_x, structure_y, structure_z),
            forall|i: int| 0 <= i < N_BLOCKS ==> #[trigger] r.blocks_view()[i] == AIR_BLOCK_ID,
            forall|i: int| 0 <= i < N_BLOCKS ==> #[trigger] r.ups_view()[i] == BlockFace::Top,
    {
        let mut blocks: Vec<u16> = Vec::new();
        let mut block_ups: Vec<BlockFace> = Vec::new();
        let mut i: usize = 0;
        while i < N_BLOCKS
            invariant
                i <= N_BLOCKS,
                blocks@.len() == i,
                block_ups@.len() == i,
                forall|j: int| 0 <= j < i ==> #[trigger] blocks@[j] == AIR_BLOCK_ID,
                forall|j: int| 0 <= j < i ==> #[trigger] block_ups@[j] == BlockFace::Top,
            decreases N_BLOCKS - i,
        {
            blocks.push(AIR_BLOCK_ID);
            block_ups.push(BlockFace::Top);
            i += 1;
        }
        Chunk { structure_x, structure_y, structure_z, blocks, block_ups }
    }

    /// The chunk's x coordinate within its structure.
    pub fn structure_x(&self) -> (r: usize)
        ensures
            r == self.coords().0,
    {
        self.structure_x
    }

    /// The chunk's y coordinate within its structure.
    pub fn structure_y(&self) -> (r: usize)
        ensures
            r == self.coords().1,
    {
        self.structure_y
    }

    /// The chunk's z coordinate within its structure.
    pub fn structure_z(&self) -> (r: usize)
        ensures
            r == self.coords().2,
    {
        self.structure_z
    }

    /// The block id at chunk-local `(x, y, z)`.
    pub fn block_at(&self, x: usize, y: usize, z: usize) -> (r: u16)
        requires
            self.wf(),
            in_chunk(x as int, y as int, z as int),
        ensures
            r == self.block_spec(x as int, y as int, z as int),
    {
        self.blocks[voxel(x, y, z)]
    }

    /// The "up" face of the block at chunk-local `(x, y, z)`.
    pub fn block_up(&self, x: usize, y: usize, z: usize) -> (r: BlockFace)
        requires
            self.wf(),
            in_chunk(x as int, y as int, z as int),
        ensures
            r == self.up_spec(x as int, y as int, z as int),
    {
        self.block_ups[voxel(x, y, z)]
    }

    /// Whether the block at chunk-local `(x, y, z)` is anything but air.
    pub fn has_block_at(&self, x: usize, y: usize, z: usize) -> (r: bool)
        requires
            self.wf(),
            in_chunk(x as int, y as int, z as int),
        ensures
            r == (self.block_spec(x as int, y as int, z as int) != AIR_BLOCK_ID),
    {
        self.block_at(x, y, z) != AIR_BLOCK_ID
    }

    /// Applies a fill rule to every voxel of the chunk: where `f` gives a block
    /// and an "up" face, they replace what was there.
    pub(crate) fn fill_with<F: Fn(usize, usize, usize) -> Option<(u16, BlockFace)>>(
        &mut self,
        f: F,
        Ghost(fill): Ghost<spec_fn(int, int, int) -> Option<(u16, BlockFace)>>,
    )
        requires
            old(self).wf(),
            forall|x: usize, y: usize, z: usize|
                in_chunk(x as int, y as int, z as int) ==> #[trigger] f.requires((x, y, z)),
            forall|x: usize, y: usize, z: usize, v: Option<(u16, BlockFace)>|
                in_chunk(x as int, y as int, z as int) && #[trigger] f.ensures((x, y, z), v) ==> v
                    == fill(x as int, y as int, z as int),
        ensures
            filled_from(*old(self), *final(self), fill),
    {
        let ghost start = *self;
        let mut n: usize = 0;
        while n < N_BLOCKS
            invariant
                n <= N_BLOCKS,
                self.wf(),
                self.coords() == start.coords(),
                start.wf(),
                forall|x: usize, y: usize, z: usize|
                    in_chunk(x as int, y as int, z as int) ==> #[trigger] f.requires((x, y, z)),
                forall|x: usize, y: usize, z: usize, v: Option<(u16, BlockFace)>|
                    in_chunk(x as int, y as int, z as int) && #[trigger] f.ensures((x, y, z), v) ==> v
                        == fill(x as int, y as int, z as int),
                forall|m: int|
                    0 <= m < n ==> #[trigger] self.blocks@[m] == after_fill(
                        start.blocks@[m],
                        fill_block(fill(voxel_coords(m).0, voxel_coords(m).1, voxel_coords(m).2)),
                    ),
                forall|m: int|
                    0 <= m < n ==> #[trigger] self.block_ups@[m] == after_fill(
                        start.block_ups@[m],
                        fill_up(fill(voxel_coords(m).0, voxel_coords(m).1, voxel_coords(m).2)),
                    ),
                forall|m: int| n <= m < N_BLOCKS ==> #[trigger] self.blocks@[m] == start.blocks@[m],
                forall|m: int| n <= m < N_BLOCKS ==> #[trigger] self.block_ups@[m] == start.block_ups@[m],
            decreases N_BLOCKS - n,
        {
            let (x, y, z) = expand(n, CHUNK_DIMENSIONS, CHUNK_DIMENSIONS);
            assert(z < 32) by {
                vstd::arithmetic::div_mod::lemma_div_is_ordered(n as int, 32767, 1024);
            }
            let v = f(x, y, z);
            assert(voxel_coords(n as int) == (x as int, y as int, z as int));
            match v {
                Some((block, up)) => {
                    self.blocks.set(n, block);
                    self.block_ups.set(n, up);
                },
                None => {},
            }
            n += 1;
        }
        proof {
            assert forall|x: int, y: int, z: int| in_chunk(x, y, z) implies #[trigger] self.block_spec(x, y, z)
                == after_fill(start.block_spec(x, y, z), fill_block(fill(x, y, z)))
                && self.up_spec(x, y, z) == after_fill(start.up_spec(x, y, z), fill_up(fill(x, y, z))) by {
                lemma_expand_flatten(x, y, z, 32, 32);
                lemma_voxel_index_bounds(x, y, z);
                let m = voxel_index(x, y, z);
                assert(self.blocks@[m] == after_fill(
                    start.blocks@[m],
                    fill_block(fill(voxel_coords(m).0, voxel_coords(m).1, voxel_coords(m).2)),
                ));
            }
        }
    }

    /// Sets the block at chunk-local `(x, y, z)` and the face that points up for it.
    pub fn set_block_at(&mut self, x: usize, y: usize, z: usize, block: u16, up: BlockFace)
        requires
            old(self).wf(),
            in_chunk(x as int, y as int, z as int),
        ensures
            final(self).wf(),
            final(self).coords() == old(self).coords(),
            final(self).blocks_view() == old(self).blocks_view().update(voxel_index(x as int, y as int, z as int), block),
            final(self).ups_view() == old(self).ups_view().update(voxel_index(x as int, y as int, z as int), up),
    {
        let i = voxel(x, y, z);
        self.blocks.set(i, block);
        self.block_ups.set(i, up);
    }
}

} // verus!
