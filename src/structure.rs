//! The chunked voxel store of a structure (a planet, a ship), and the
//! lifecycle state of each of its chunks.

use vstd::prelude::*;
use crate::array_utils::{expanded, flat_index, flatten, lemma_expand_flatten};
use crate::chunk::{voxel_index, Chunk, CHUNK_DIMENSIONS, N_BLOCKS};
use crate::block::{AIR_BLOCK_ID, BlockFace};

verus! {

/// Where a chunk coordinate stands in its lifecycle.
#[derive(Debug, Clone, Copy, PartialEq, Eq, Structural, Hash)]
pub enum ChunkState {
    /// No blocks and no generation under way.
    Unloaded,
    /// Exactly one generation task owns the chunk.
    Loading,
    /// The chunk's blocks are present.
    Loaded,
    /// The coordinate is outside the structure.
    Invalid,
}

/// Distinct in-bounds coordinates have distinct flat indices, which lie below
/// `width * height * length`.
pub proof fn lemma_slot(width: int, height: int, length: int, x: int, y: int, z: int)
    requires
        0 <= x < width,
        0 <= y < height,
        0 <= z < length,
    ensures
        0 <= flat_index(x, y, z, width, height) < width * height * length,
        expanded(flat_index(x, y, z, width, height), width, height) == (x, y, z),
{
    lemma_expand_flatten(x, y, z, width, height);
    let wh = width * height;
    assert(y * width + x < wh) by {
        vstd::arithmetic::mul::lemma_mul_inequality(y, height - 1, width);
        vstd::arithmetic::mul::lemma_mul_is_distributive_sub_other_way(width, height, 1);
    }
    assert(0 <= y * width) by {
        vstd::arithmetic::mul::lemma_mul_nonnegative(y, width);
    }
    assert(z * wh + wh <= length * wh) by {
        vstd::arithmetic::mul::lemma_mul_inequality(z + 1, length, wh);
        vstd::arithmetic::mul::lemma_mul_is_distributive_add_other_way(wh, z, 1);
    }
    assert(0 <= z * wh) by {
        vstd::arithmetic::mul::lemma_mul_nonnegative(z, wh);
    }
    vstd::arithmetic::mul::lemma_mul_is_commutative(length, wh);
}

/// Sent when a block of a structure changes.
#[derive(Debug, Clone, Copy, PartialEq, Eq, Structural)]
pub struct BlockChangedEvent {
    /// The block's new id.
    pub new_block: u16,
    /// The block's id before the change.
    pub old_block: u16,
    /// The world object that owns the structure.
    pub structure_entity: u64,
    /// The block's x coordinate in the structure.
    pub x: usize,
    /// The block's y coordinate in the structure.
    pub y: usize,
    /// The block's z coordinate in the structure.
    pub z: usize,
}

/// A structure is a cuboid of `width x height x length` chunks.
#[derive(Debug)]
pub struct Structure {
    chunks: Vec<Option<Chunk>>,
    loading: Vec<bool>,
    chunk_entities: Vec<Option<u64>>,
    self_entity: Option<u64>,
    width: usize,
    height: usize,
    length: usize,
}

impl Structure {
    /// The structure's size in chunks: width, height, length.
    pub closed spec fn dims(&self) -> (usize, usize, usize) {
        (self.width, self.height, self.length)
    }

    /// The identity of the world object that owns the structure.
    pub closed spec fn entity(&self) -> Option<u64> {
        self.self_entity
    }

    /// Whether chunk coordinate `(x, y, z)` lies inside the structure.
    pub open spec fn in_bounds(&self, x: int, y: int, z: int) -> bool {
        0 <= x < self.dims().0 && 0 <= y < self.dims().1 && 0 <= z < self.dims().2
    }

    closed spec fn slot(&self, x: int, y: int, z: int) -> int {
        flat_index(x, y, z, self.width as int, self.height as int)
    }

    /// The chunk stored at `(x, y, z)`, present exactly while it is loaded.
    pub closed spec fn loaded_chunk(&self, x: int, y: int, z: int) -> Option<Chunk> {
        if self.in_bounds(x, y, z) {
            self.chunks@[self.slot(x, y, z)]
        } else {
            None
        }
    }

    /// The world object recorded for the chunk at `(x, y, z)`, if any.
    pub closed spec fn chunk_entity_of(&self, x: int, y: int, z: int) -> Option<u64> {
        if self.in_bounds(x, y, z) {
            self.chunk_entities@[self.slot(x, y, z)]
        } else {
            None
        }
    }

    /// The lifecycle state of chunk coordinate `(x, y, z)`: invalid exactly
    /// outside the structure.
    pub open spec fn state(&self, x: int, y: int, z: int) -> ChunkState {
        if !self.in_bounds(x, y, z) {
            ChunkState::Invalid
        } else {
            self.stored_state(x, y, z)
        }
    }

    /// The lifecycle state kept for in-bounds coordinate `(x, y, z)`.
    pub closed spec fn stored_state(&self, x: int, y: int, z: int) -> ChunkState {
        if self.chunks@[self.slot(x, y, z)] is Some {
            ChunkState::Loaded
        } else if self.loading@[self.slot(x, y, z)] {
            ChunkState::Loading
        } else {
            ChunkState::Unloaded
        }
    }

    /// One slot per chunk coordinate; a stored chunk is well formed and knows
    /// its own coordinate.
    pub closed spec fn wf(&self) -> bool {
        &&& self.width * self.height <= usize::MAX
        &&& self.width * self.height * self.length <= usize::MAX
        &&& self.chunks@.len() == self.width * self.height * self.length
        &&& self.loading@.len() == self.chunks@.len()
        &&& self.chunk_entities@.len() == self.chunks@.len()
        &&& forall|x: int, y: int, z: int|
            self.in_bounds(x, y, z) && (#[trigger] self.chunks@[self.slot(x, y, z)]) is Some ==> {
                let c = self.chunks@[self.slot(x, y, z)]->Some_0;
                c.wf() && c.coords() == (x as usize, y as usize, z as usize) && !self.loading@[self.slot(x, y, z)]
            }
    }

    /// Every coordinate but `(x, y, z)` has the same state and stored chunk in
    /// `self` and `other`.
    pub open spec fn same_except(&self, other: &Structure, x: int, y: int, z: int) -> bool {
        &&& forall|a: int, b: int, c: int|
            !(a == x && b == y && c == z) ==> #[trigger] other.state(a, b, c) == self.state(a, b, c)
        &&& forall|a: int, b: int, c: int|
            !(a == x && b == y && c == z) ==> #[trigger] other.loaded_chunk(a, b, c) == self.loaded_chunk(a, b, c)
    }

    /// A coordinate is invalid exactly when it is out of bounds; the loaded
    /// chunk at `(x, y, z)`, if any, is well formed and knows its coordinate.
    pub proof fn lemma_state_facts(&self, x: int, y: int, z: int)
        requires
            self.wf(),
        ensures
            (self.state(x, y, z) == ChunkState::Invalid) == !self.in_bounds(x, y, z),
            (self.state(x, y, z) == ChunkState::Loaded) == (self.loaded_chunk(x, y, z) is Some),
            self.loaded_chunk(x, y, z) is Some ==> self.loaded_chunk(x, y, z)->Some_0.wf()
                && self.loaded_chunk(x, y, z)->Some_0.coords() == (x as usize, y as usize, z as usize),
    {
    }

    /// Once a coordinate is invalid it stays so: the states of a structure
    /// before and after any change that keeps its size agree on every invalid
    /// coordinate.
    pub proof fn lemma_invalid_is_permanent(&self, after: &Structure, x: int, y: int, z: int)
        requires
            self.dims() == after.dims(),
            self.state(x, y, z) == ChunkState::Invalid,
        ensures
            after.state(x, y, z) == ChunkState::Invalid,
    {
    }

    proof fn lemma_slot_of(&self, x: int, y: int, z: int)
        requires
            self.wf(),
            self.in_bounds(x, y, z),
        ensures
            0 <= self.slot(x, y, z) < self.chunks@.len(),
            expanded(self.slot(x, y, z), self.width as int, self.height as int) == (x, y, z),
    {
        lemma_slot(self.width as int, self.height as int, self.length as int, x, y, z);
    }

    fn slot_exec(&self, x: usize, y: usize, z: usize) -> (r: usize)
        requires
            self.wf(),
            self.in_bounds(x as int, y as int, z as int),
        ensures
            r as int == self.slot(x as int, y as int, z as int),
            r < self.chunks@.len(),
    {
        proof {
            self.lemma_slot_of(x as int, y as int, z as int);
            let (w, h, l) = (self.width as int, self.height as int, self.length as int);
            assert(z * w <= l * w) by {
                vstd::arithmetic::mul::lemma_mul_inequality(z as int, l, w);
            }
            assert(l * w <= w * h * l) by {
                vstd::arithmetic::mul::lemma_mul_inequality(1, h, l * w);
                vstd::arithmetic::mul::lemma_mul_is_associative(w, h, l);
                vstd::arithmetic::mul::lemma_mul_is_commutative(h, l * w);
                vstd::arithmetic::mul::lemma_mul_is_commutative(l, w);
                vstd::arithmetic::mul::lemma_mul_is_associative(w, l, h);
                vstd::arithmetic::mul::lemma_mul_is_commutative(l, h);
            }
        }
        flatten(x, y, z, self.width, self.height)
    }

    /// Writing slot `(x, y, z)` leaves every other coordinate as it was.
    proof fn lemma_other_slots(&self, x: int, y: int, z: int, a: int, b: int, c: int)
        requires
            self.wf(),
            self.in_bounds(x, y, z),
            self.in_bounds(a, b, c),
            !(a == x && b == y && c == z),
        ensures
            self.slot(a, b, c) != self.slot(x, y, z),
    {
        self.lemma_slot_of(x, y, z);
        self.lemma_slot_of(a, b, c);
    }

    /// A structure of `width x height x length` chunks, none of them loaded.
    pub fn new(width: usize, height: usize, length: usize, self_entity: u64) -> (r: Self)
        requires
            width * height <= usize::MAX,
            width * height * length <= usize::MAX,
        ensures
            r.wf(),
            r.dims() == (width, height, length),
            r.entity() == Some(self_entity),
            forall|x: int, y: int, z: int| r.in_bounds(x, y, z) ==> #[trigger] r.state(x, y, z) == ChunkState::Unloaded,
            forall|x: int, y: int, z: int| #[trigger] r.state(x, y, z) != ChunkState::Loading,
            forall|x: int, y: int, z: int| #[trigger] r.chunk_entity_of(x, y, z) is None,
    {
        let n = width * height * length;
        let mut chunks: Vec<Option<Chunk>> = Vec::new();
        let mut loading: Vec<bool> = Vec::new();
        let mut chunk_entities: Vec<Option<u64>> = Vec::new();
        let mut i: usize = 0;
        while i < n
            invariant
                i <= n,
                chunks@.len() == i,
                loading@.len() == i,
                chunk_entities@.len() == i,
                forall|j: int| 0 <= j < i ==> (#[trigger] chunk_entities@[j]) is None,
                forall|j: int| 0 <= j < i ==> (#[trigger] chunks@[j]) is None,
                forall|j: int| 0 <= j < i ==> !(#[trigger] loading@[j]),
            decreases n - i,
        {
            chunks.push(None);
            loading.push(false);
            chunk_entities.push(None);
            i += 1;
        }
        let r = Structure { chunks, loading, chunk_entities, self_entity: Some(self_entity), width, height, length };
        proof {
            assert forall|x: int, y: int, z: int|
                r.in_bounds(x, y, z) implies (#[trigger] r.chunks@[r.slot(x, y, z)]) is None
                    && r.chunk_entities@[r.slot(x, y, z)] is None by {
                lemma_slot(width as int, height as int, length as int, x, y, z);
            }
            assert forall|x: int, y: int, z: int| #[trigger] r.chunk_entity_of(x, y, z) is None by {
                if r.in_bounds(x, y, z) {
                    lemma_slot(width as int, height as int, length as int, x, y, z);
                }
            }

            assert forall|x: int, y: int, z: int| r.in_bounds(x, y, z) implies #[trigger] r.state(x, y, z)
                == ChunkState::Unloaded by {
                r.lemma_slot_of(x, y, z);
            }
        }
        r
    }

    /// The structure's width, in chunks.
    pub fn chunks_width(&self) -> (r: usize)
        ensures
            r == self.dims().0,
    {
        self.width
    }

    /// The structure's height, in chunks.
    pub fn chunks_height(&self) -> (r: usize)
        ensures
            r == self.dims().1,
    {
        self.height
    }

    /// The structure's length, in chunks.
    pub fn chunks_length(&self) -> (r: usize)
        ensures
            r == self.dims().2,
    {
        self.length
    }

    /// The structure's width, in blocks.
    pub fn blocks_width(&self) -> (r: usize)
        requires
            self.dims().0 * CHUNK_DIMENSIONS <= usize::MAX,
        ensures
            r == self.dims().0 * CHUNK_DIMENSIONS,
    {
        self.width * CHUNK_DIMENSIONS
    }

    /// The structure's height, in blocks.
    pub fn blocks_height(&self) -> (r: usize)
        requires
            self.dims().1 * CHUNK_DIMENSIONS <= usize::MAX,
        ensures
            r == self.dims().1 * CHUNK_DIMENSIONS,
    {
        self.height * CHUNK_DIMENSIONS
    }

    /// The structure's length, in blocks.
    pub fn blocks_length(&self) -> (r: usize)
        requires
            self.dims().2 * CHUNK_DIMENSIONS <= usize::MAX,
        ensures
            r == self.dims().2 * CHUNK_DIMENSIONS,
    {
        self.length * CHUNK_DIMENSIONS
    }

    /// Records the world object that owns this structure.
    pub fn set_entity(&mut self, entity: u64)
        requires
            old(self).wf(),
        ensures
            final(self).entity() == Some(entity),
            final(self).dims() == old(self).dims(),
            final(self).wf(),
            forall|x: int, y: int, z: int| #[trigger] final(self).state(x, y, z) == old(self).state(x, y, z)
                && final(self).loaded_chunk(x, y, z) == old(self).loaded_chunk(x, y, z),
    {
        self.self_entity = Some(entity);
        assert forall|x: int, y: int, z: int|
            self.in_bounds(x, y, z) && (#[trigger] self.chunks@[self.slot(x, y, z)]) is Some implies {
                let c = self.chunks@[self.slot(x, y, z)]->Some_0;
                c.wf() && c.coords() == (x as usize, y as usize, z as usize) && !self.loading@[self.slot(x, y, z)]
            } by {
            assert(old(self).chunks@[old(self).slot(x, y, z)] is Some);
        }
    }

    /// The world object that owns this structure, if it was set.
    pub fn get_entity(&self) -> (r: Option<u64>)
        ensures
            r == self.entity(),
    {
        self.self_entity
    }

    /// Whether chunk coordinate `(x, y, z)` lies inside the structure.
    pub fn is_within_chunks(&self, x: usize, y: usize, z: usize) -> (r: bool)
        ensures
            r == self.in_bounds(x as int, y as int, z as int),
    {
        x < self.width && y < self.height && z < self.length
    }

    /// The lifecycle state of chunk coordinate `(x, y, z)`.
    pub fn get_chunk_state(&self, x: usize, y: usize, z: usize) -> (r: ChunkState)
        requires
            self.wf(),
        ensures
            r == self.state(x as int, y as int, z as int),
    {
        if !self.is_within_chunks(x, y, z) {
            return ChunkState::Invalid;
        }
        let i = self.slot_exec(x, y, z);
        if self.chunks[i].is_some() {
            ChunkState::Loaded
        } else if self.loading[i] {
            ChunkState::Loading
        } else {
            ChunkState::Unloaded
        }
    }

    /// The loaded chunk at chunk coordinate `(x, y, z)`, if it is loaded.
    pub fn chunk_from_chunk_coordinates(&self, x: usize, y: usize, z: usize) -> (r: Option<&Chunk>)
        requires
            self.wf(),
        ensures
            r is Some == (self.loaded_chunk(x as int, y as int, z as int) is Some),
            r is Some ==> *r->Some_0 == self.loaded_chunk(x as int, y as int, z as int)->Some_0,
    {
        if !self.is_within_chunks(x, y, z) {
            return None;
        }
        let i = self.slot_exec(x, y, z);
        match &self.chunks[i] {
            Some(c) => Some(c),
            None => None,
        }
    }

    /// Stores `chunk` at its own coordinate, which becomes loaded. Used when a
    /// generated chunk is merged and when a chunk is read from storage.
    pub fn set_chunk(&mut self, chunk: Chunk)
        requires
            old(self).wf(),
            chunk.wf(),
            old(self).in_bounds(chunk.coords().0 as int, chunk.coords().1 as int, chunk.coords().2 as int),
        ensures
            final(self).wf(),
            final(self).dims() == old(self).dims(),
            final(self).entity() == old(self).entity(),
            final(self).state(chunk.coords().0 as int, chunk.coords().1 as int, chunk.coords().2 as int)
                == ChunkState::Loaded,
            final(self).loaded_chunk(chunk.coords().0 as int, chunk.coords().1 as int, chunk.coords().2 as int)
                == Some(chunk),
            old(self).same_except(final(self), chunk.coords().0 as int, chunk.coords().1 as int, chunk.coords().2 as int),
            forall|a: int, b: int, c: int| #[trigger] final(self).chunk_entity_of(a, b, c) == old(self).chunk_entity_of(a, b, c),
    {
        let x = chunk.structure_x();
        let y = chunk.structure_y();
        let z = chunk.structure_z();
        let i = self.slot_exec(x, y, z);
        let ghost before = *self;
        self.chunks.set(i, Some(chunk));
        self.loading.set(i, false);
        proof {
            self.lemma_slots_kept(&before, x as int, y as int, z as int);
        }
    }

    /// Facts about a write to slot `(x, y, z)` alone: the other coordinates
    /// keep their state and chunk, and well-formedness carries over.
    proof fn lemma_slots_kept(&self, before: &Structure, x: int, y: int, z: int)
        requires
            before.wf(),
            before.in_bounds(x, y, z),
            self.dims() == before.dims(),
            self.chunks@.len() == before.chunks@.len(),
            self.loading@.len() == before.loading@.len(),
            self.chunk_entities@ == before.chunk_entities@,
            forall|i: int| 0 <= i < self.chunks@.len() && i != before.slot(x, y, z) ==> self.chunks@[i] == before.chunks@[i]
                && self.loading@[i] == before.loading@[i],
            self.chunks@[before.slot(x, y, z)] is Some ==> {
                let c = self.chunks@[before.slot(x, y, z)]->Some_0;
                c.wf() && c.coords() == (x as usize, y as usize, z as usize) && !self.loading@[before.slot(x, y, z)]
            },
        ensures
            self.wf(),
            before.same_except(self, x, y, z),
            forall|a: int, b: int, c: int| #[trigger] self.chunk_entity_of(a, b, c) == before.chunk_entity_of(a, b, c),
    {
        assert forall|a: int, b: int, c: int|
            self.in_bounds(a, b, c) && (#[trigger] self.chunks@[self.slot(a, b, c)]) is Some implies {
                let ch = self.chunks@[self.slot(a, b, c)]->Some_0;
                ch.wf() && ch.coords() == (a as usize, b as usize, c as usize) && !self.loading@[self.slot(a, b, c)]
            } by {
            before.lemma_slot_of(a, b, c);
            if !(a == x && b == y && c == z) {
                before.lemma_other_slots(x, y, z, a, b, c);
            }
        }
        assert forall|a: int, b: int, c: int| !(a == x && b == y && c == z) implies #[trigger] self.state(a, b, c)
            == before.state(a, b, c) && self.loaded_chunk(a, b, c) == before.loaded_chunk(a, b, c) by {
            if before.in_bounds(a, b, c) {
                before.lemma_slot_of(a, b, c);
                before.lemma_other_slots(x, y, z, a, b, c);
            }
        }
        assert forall|a: int, b: int, c: int| !(a == x && b == y && c == z) implies #[trigger] self.loaded_chunk(a, b, c)
            == before.loaded_chunk(a, b, c) by {
            assert(self.state(a, b, c) == before.state(a, b, c));
        }
    }

    /// Starts loading chunk coordinate `(x, y, z)`: hands out the chunk to
    /// fill, the loaded one if there is one, else an empty one, and marks the
    /// coordinate as loading.
    pub fn take_or_create_chunk_for_loading(&mut self, x: usize, y: usize, z: usize) -> (r: Chunk)
        requires
            old(self).wf(),
            old(self).in_bounds(x as int, y as int, z as int),
        ensures
            final(self).wf(),
            final(self).dims() == old(self).dims(),
            final(self).entity() == old(self).entity(),
            final(self).state(x as int, y as int, z as int) == ChunkState::Loading,
            old(self).same_except(final(self), x as int, y as int, z as int),
            forall|a: int, b: int, c: int| #[trigger] final(self).chunk_entity_of(a, b, c) == old(self).chunk_entity_of(a, b, c),
            r.wf(),
            r.coords() == (x, y, z),
            old(self).loaded_chunk(x as int, y as int, z as int) is Some ==> r == old(self).loaded_chunk(
                x as int,
                y as int,
                z as int,
            )->Some_0,
            old(self).loaded_chunk(x as int, y as int, z as int) is None ==> forall|i: int|
                0 <= i < N_BLOCKS ==> #[trigger] r.blocks_view()[i] == AIR_BLOCK_ID,
            old(self).loaded_chunk(x as int, y as int, z as int) is None ==> forall|i: int|
                0 <= i < N_BLOCKS ==> #[trigger] r.ups_view()[i] == BlockFace::Top,
    {
        let i = self.slot_exec(x, y, z);
        let ghost before = *self;
        self.chunks.push(None);
        let taken = self.chunks.swap_remove(i);
        self.loading.set(i, true);
        proof {
            assert(self.chunks@ =~= before.chunks@.update(i as int, None));
            self.lemma_slots_kept(&before, x as int, y as int, z as int);
        }
        match taken {
            Some(c) => c,
            None => Chunk::new(x, y, z),
        }
    }

    /// Unloads the chunk at `(x, y, z)` if it is loaded, handing it back.
    pub fn unload_chunk_at(&mut self, x: usize, y: usize, z: usize) -> (r: Option<Chunk>)
        requires
            old(self).wf(),
        ensures
            final(self).wf(),
            final(self).dims() == old(self).dims(),
            final(self).entity() == old(self).entity(),
            r == old(self).loaded_chunk(x as int, y as int, z as int),
            final(self).state(x as int, y as int, z as int) == if old(self).state(x as int, y as int, z as int)
                == ChunkState::Loaded {
                ChunkState::Unloaded
            } else {
                old(self).state(x as int, y as int, z as int)
            },
            final(self).loaded_chunk(x as int, y as int, z as int) is None,
            old(self).same_except(final(self), x as int, y as int, z as int),
            forall|a: int, b: int, c: int| #[trigger] final(self).chunk_entity_of(a, b, c) == old(self).chunk_entity_of(a, b, c),
    {
        if !self.is_within_chunks(x, y, z) {
            return None;
        }
        let i = self.slot_exec(x, y, z);
        let ghost before = *self;
        self.chunks.push(None);
        let taken = self.chunks.swap_remove(i);
        proof {
            assert(self.chunks@ =~= before.chunks@.update(i as int, None));
            self.lemma_slots_kept(&before, x as int, y as int, z as int);
        }
        taken
    }

    /// Whether block coordinate `(x, y, z)` lies inside the structure.
    pub open spec fn within_blocks(&self, x: int, y: int, z: int) -> bool {
        self.in_bounds(x / CHUNK_DIMENSIONS as int, y / CHUNK_DIMENSIONS as int, z / CHUNK_DIMENSIONS as int)
            && 0 <= x && 0 <= y && 0 <= z
    }

    /// The id of the block at block coordinate `(x, y, z)`: air where the
    /// chunk is not loaded.
    pub open spec fn block_id_spec(&self, x: int, y: int, z: int) -> u16 {
        match self.loaded_chunk(x / CHUNK_DIMENSIONS as int, y / CHUNK_DIMENSIONS as int, z / CHUNK_DIMENSIONS as int) {
            Some(c) => c.block_spec(
                x % CHUNK_DIMENSIONS as int,
                y % CHUNK_DIMENSIONS as int,
                z % CHUNK_DIMENSIONS as int,
            ),
            None => AIR_BLOCK_ID,
        }
    }

    /// Whether block coordinate `(x, y, z)` lies inside the structure.
    pub fn is_within_blocks(&self, x: usize, y: usize, z: usize) -> (r: bool)
        ensures
            r == self.within_blocks(x as int, y as int, z as int),
    {
        self.is_within_chunks(x / CHUNK_DIMENSIONS, y / CHUNK_DIMENSIONS, z / CHUNK_DIMENSIONS)
    }

    /// The loaded chunk that holds block coordinate `(x, y, z)`, if any.
    pub fn chunk_at_block_coordinates(&self, x: usize, y: usize, z: usize) -> (r: Option<&Chunk>)
        requires
            self.wf(),
        ensures
            r is Some == (self.loaded_chunk(x as int / 32, y as int / 32, z as int / 32) is Some),
            r is Some ==> *r->Some_0 == self.loaded_chunk(x as int / 32, y as int / 32, z as int / 32)->Some_0,
    {
        self.chunk_from_chunk_coordinates(x / CHUNK_DIMENSIONS, y / CHUNK_DIMENSIONS, z / CHUNK_DIMENSIONS)
    }

    /// The id of the block at block coordinate `(x, y, z)`.
    pub fn block_id_at(&self, x: usize, y: usize, z: usize) -> (r: u16)
        requires
            self.wf(),
        ensures
            r == self.block_id_spec(x as int, y as int, z as int),
    {
        match self.chunk_at_block_coordinates(x, y, z) {
            Some(c) => {
                proof {
                    self.lemma_state_facts(x as int / 32, y as int / 32, z as int / 32);
                }
                c.block_at(x % CHUNK_DIMENSIONS, y % CHUNK_DIMENSIONS, z % CHUNK_DIMENSIONS)
            },
            None => AIR_BLOCK_ID,
        }
    }

    /// Whether the block at block coordinate `(x, y, z)` is anything but air.
    pub fn has_block_at(&self, x: usize, y: usize, z: usize) -> (r: bool)
        requires
            self.wf(),
        ensures
            r == (self.block_id_spec(x as int, y as int, z as int) != AIR_BLOCK_ID),
    {
        self.block_id_at(x, y, z) != AIR_BLOCK_ID
    }

    /// Sets the block at block coordinate `(x, y, z)`, with `up` as its "up"
    /// face, in its chunk if that is loaded. Where the block changes and the
    /// structure's owner is known, returns the change to announce.
    pub fn set_block_at(&mut self, x: usize, y: usize, z: usize, block: u16, up: BlockFace) -> (r: Option<BlockChangedEvent>)
        requires
            old(self).wf(),
        ensures
            final(self).wf(),
            final(self).dims() == old(self).dims(),
            final(self).entity() == old(self).entity(),
            forall|a: int, b: int, c: int| #[trigger] final(self).chunk_entity_of(a, b, c) == old(self).chunk_entity_of(a, b, c),
            ({
                let (cx, cy, cz) = (x / 32, y / 32, z / 32);
                let (lx, ly, lz) = (x % 32, y % 32, z % 32);
                let before = old(self).loaded_chunk(cx as int, cy as int, cz as int);
                let old_block = old(self).block_id_spec(x as int, y as int, z as int);
                if before is Some && old_block != block {
                    let c = before->Some_0;
                    let n = final(self).loaded_chunk(cx as int, cy as int, cz as int);
                    &&& n is Some
                    &&& n->Some_0.coords() == c.coords()
                    &&& n->Some_0.blocks_view() == c.blocks_view().update(voxel_index(lx as int, ly as int, lz as int), block)
                    &&& n->Some_0.ups_view() == c.ups_view().update(voxel_index(lx as int, ly as int, lz as int), up)
                    &&& old(self).same_except(final(self), cx as int, cy as int, cz as int)
                    &&& final(self).state(cx as int, cy as int, cz as int) == ChunkState::Loaded
                    &&& r == match old(self).entity() {
                        Some(e) => Some(BlockChangedEvent { new_block: block, old_block, structure_entity: e, x, y, z }),
                        None => None,
                    }
                } else {
                    &&& *final(self) == *old(self)
                    &&& r is None
                }
            }),
    {
        let (cx, cy, cz) = (x / CHUNK_DIMENSIONS, y / CHUNK_DIMENSIONS, z / CHUNK_DIMENSIONS);
        if !self.is_within_chunks(cx, cy, cz) {
            return None;
        }
        let old_block = self.block_id_at(x, y, z);
        let i = self.slot_exec(cx, cy, cz);
        if self.chunks[i].is_none() || old_block == block {
            return None;
        }
        let ghost before = *self;
        self.chunks.push(None);
        let taken = self.chunks.swap_remove(i);
        assert(self.chunks@ =~= before.chunks@.update(i as int, None));
        match taken {
            Some(mut c) => {
                c.set_block_at(x % CHUNK_DIMENSIONS, y % CHUNK_DIMENSIONS, z % CHUNK_DIMENSIONS, block, up);
                self.chunks.set(i, Some(c));
                proof {
                    before.lemma_slot_of(cx as int, cy as int, cz as int);
                    self.lemma_slots_kept(&before, cx as int, cy as int, cz as int);
                }
            },
            None => {},
        }
        match self.self_entity {
            Some(e) => Some(BlockChangedEvent { new_block: block, old_block, structure_entity: e, x, y, z }),
            None => None,
        }
    }

    /// Sets the block at block coordinate `(x, y, z)` to air.
    pub fn remove_block_at(&mut self, x: usize, y: usize, z: usize) -> (r: Option<BlockChangedEvent>)
        requires
            old(self).wf(),
        ensures
            final(self).wf(),
            final(self).dims() == old(self).dims(),
            final(self).entity() == old(self).entity(),
            forall|a: int, b: int, c: int| #[trigger] final(self).chunk_entity_of(a, b, c) == old(self).chunk_entity_of(a, b, c),
            ({
                let (cx, cy, cz) = (x / 32, y / 32, z / 32);
                let (lx, ly, lz) = (x % 32, y % 32, z % 32);
                let before = old(self).loaded_chunk(cx as int, cy as int, cz as int);
                let old_block = old(self).block_id_spec(x as int, y as int, z as int);
                if before is Some && old_block != AIR_BLOCK_ID {
                    let c = before->Some_0;
                    let n = final(self).loaded_chunk(cx as int, cy as int, cz as int);
                    &&& n is Some
                    &&& n->Some_0.coords() == c.coords()
                    &&& n->Some_0.blocks_view() == c.blocks_view().update(voxel_index(lx as int, ly as int, lz as int), AIR_BLOCK_ID)
                    &&& n->Some_0.ups_view() == c.ups_view().update(voxel_index(lx as int, ly as int, lz as int), BlockFace::Top)
                    &&& old(self).same_except(final(self), cx as int, cy as int, cz as int)
                    &&& r == match old(self).entity() {
                        Some(e) => Some(BlockChangedEvent { new_block: AIR_BLOCK_ID, old_block, structure_entity: e, x, y, z }),
                        None => None,
                    }
                } else {
                    &&& *final(self) == *old(self)
                    &&& r is None
                }
            }),
    {
        self.set_block_at(x, y, z, AIR_BLOCK_ID, BlockFace::Top)
    }

    /// The world object recorded for the chunk at `(x, y, z)`, if any.
    pub fn chunk_entity(&self, x: usize, y: usize, z: usize) -> (r: Option<u64>)
        requires
            self.wf(),
        ensures
            r == self.chunk_entity_of(x as int, y as int, z as int),
    {
        if !self.is_within_chunks(x, y, z) {
            return None;
        }
        let i = self.slot_exec(x, y, z);
        self.chunk_entities[i]
    }

    /// Records the world object of the chunk at `(x, y, z)`.
    pub fn set_chunk_entity(&mut self, x: usize, y: usize, z: usize, entity: u64)
        requires
            old(self).wf(),
            old(self).in_bounds(x as int, y as int, z as int),
        ensures
            final(self).wf(),
            final(self).dims() == old(self).dims(),
            final(self).entity() == old(self).entity(),
            forall|a: int, b: int, c: int| #[trigger] final(self).state(a, b, c) == old(self).state(a, b, c),
            forall|a: int, b: int, c: int| #[trigger] final(self).loaded_chunk(a, b, c) == old(self).loaded_chunk(a, b, c),
            forall|a: int, b: int, c: int| #[trigger] final(self).chunk_entity_of(a, b, c) == if a == x && b == y && c == z {
                Some(entity)
            } else {
                old(self).chunk_entity_of(a, b, c)
            },
    {
        let i = self.slot_exec(x, y, z);
        let ghost before = *self;
        self.chunk_entities.set(i, Some(entity));
        proof {
            assert forall|a: int, b: int, c: int|
                self.in_bounds(a, b, c) && (#[trigger] self.chunks@[self.slot(a, b, c)]) is Some implies {
                    let ch = self.chunks@[self.slot(a, b, c)]->Some_0;
                    ch.wf() && ch.coords() == (a as usize, b as usize, c as usize) && !self.loading@[self.slot(a, b, c)]
                } by {
                assert(before.chunks@[before.slot(a, b, c)] is Some);
            }
            assert forall|a: int, b: int, c: int| #[trigger] self.chunk_entity_of(a, b, c) == if a == x && b == y && c == z {
                Some(entity)
            } else {
                before.chunk_entity_of(a, b, c)
            } by {
                if self.in_bounds(a, b, c) && !(a == x && b == y && c == z) {
                    before.lemma_slot_of(a, b, c);
                    before.lemma_other_slots(x as int, y as int, z as int, a, b, c);
                }
            }
            assert forall|a: int, b: int, c: int| #[trigger] self.state(a, b, c) == before.state(a, b, c) by {
                if self.in_bounds(a, b, c) {
                    assert(self.chunks@[self.slot(a, b, c)] == before.chunks@[before.slot(a, b, c)]);
                }
            }
            assert forall|a: int, b: int, c: int| #[trigger] self.loaded_chunk(a, b, c) == before.loaded_chunk(a, b, c) by {
                if self.in_bounds(a, b, c) {
                    assert(self.chunks@[self.slot(a, b, c)] == before.chunks@[before.slot(a, b, c)]);
                }
            }
        }
    }
}

} // verus!
