//! Which block sits at which depth below a planet's surface.

use vstd::prelude::*;

verus! {

/// The first position at or after `i` whose minimum depth is at most `depth`,
/// or the length of `ranges` if there is none.
pub open spec fn first_match_from(ranges: Seq<(u16, usize)>, i: int, depth: int) -> int
    decreases ranges.len() - i,
{
    if i >= ranges.len() || i < 0 {
        ranges.len() as int
    } else if ranges[i].1 <= depth {
        i
    } else {
        first_match_from(ranges, i + 1, depth)
    }
}

/// Whether some entry of `ranges` accepts `depth`.
pub open spec fn covers_depth(ranges: Seq<(u16, usize)>, depth: int) -> bool {
    exists|i: int| 0 <= i < ranges.len() && #[trigger] ranges[i].1 <= depth
}

/// The block of the first entry whose minimum depth is at most `depth`.
pub open spec fn block_for_depth(ranges: Seq<(u16, usize)>, depth: int) -> u16 {
    ranges[first_match_from(ranges, 0, depth)].0
}

/// Whether `ranges` has an entry that starts right at the surface.
pub open spec fn has_surface_entry(ranges: Seq<(u16, usize)>) -> bool {
    exists|i: int| 0 <= i < ranges.len() && #[trigger] ranges[i].1 == 0
}

proof fn lemma_first_match_bounds(ranges: Seq<(u16, usize)>, i: int, depth: int)
    requires
        0 <= i <= ranges.len(),
    ensures
        i <= first_match_from(ranges, i, depth) <= ranges.len(),
    decreases ranges.len() - i,
{
    if i < ranges.len() && ranges[i].1 > depth {
        lemma_first_match_bounds(ranges, i + 1, depth);
    }
}

proof fn lemma_first_match_found(ranges: Seq<(u16, usize)>, i: int, depth: int)
    requires
        0 <= i <= ranges.len(),
        exists|j: int| i <= j < ranges.len() && #[trigger] ranges[j].1 <= depth,
    ensures
        i <= first_match_from(ranges, i, depth) < ranges.len(),
        ranges[first_match_from(ranges, i, depth)].1 <= depth,
    decreases ranges.len() - i,
{
    if ranges[i].1 > depth {
        let j = choose|j: int| i <= j < ranges.len() && #[trigger] ranges[j].1 <= depth;
        assert(j != i);
        lemma_first_match_found(ranges, i + 1, depth);
    }
}

/// Whether some entry of `ranges` has minimum depth 0.
fn has_zero_depth(ranges: &Vec<(u16, usize)>) -> (r: bool)
    ensures
        r == has_surface_entry(ranges@),
{
    let mut i: usize = 0;
    while i < ranges.len()
        invariant
            i <= ranges@.len(),
            forall|j: int| 0 <= j < i ==> ranges@[j].1 != 0,
        decreases ranges@.len() - i,
    {
        if ranges[i].1 == 0 {
            return true;
        }
        i += 1;
    }
    false
}

/// Stores which blocks make up each biosphere, and how far below the top solid block each block generates.
/// Blocks in descending order of depth ("stone" = 5 first, "grass" = 0 last).
#[derive(Debug)]
pub struct BlockRanges {
    ranges: Vec<(u16, usize)>,
}

impl BlockRanges {
    /// The `(block, minimum depth)` entries, in lookup order.
    pub closed spec fn view(&self) -> Seq<(u16, usize)> {
        self.ranges@
    }

    /// Every table resolves every depth: it has an entry of minimum depth 0.
    #[verifier::type_invariant]
    spec fn resolves_every_depth(&self) -> bool {
        has_surface_entry(self.ranges@)
    }

    /// Creates a new block range, for each planet type to specify its blocks.
    /// A table with no entry of minimum depth 0 would leave some depths
    /// without a block, and is refused.
    pub fn new(ranges: Vec<(u16, usize)>) -> (r: Option<Self>)
        ensures
            r is Some == has_surface_entry(ranges@),
            r is Some ==> r->Some_0@ == ranges@,
    {
        if has_zero_depth(&ranges) {
            Some(BlockRanges { ranges })
        } else {
            None
        }
    }

    /// The block found `depth` blocks below the surface of a face.
    pub fn face_block(&self, depth: usize) -> (r: u16)
        ensures
            r == block_for_depth(self@, depth as int),
    {
        self.shared_block(depth, depth, depth)
    }

    /// The block at an edge, `j_depth` and `k_depth` below the surfaces of its two faces:
    /// it counts as deep only when it is deep below both.
    pub fn edge_block(&self, j_depth: usize, k_depth: usize) -> (r: u16)
        ensures
            r == block_for_depth(self@, if j_depth <= k_depth { j_depth as int } else { k_depth as int }),
    {
        self.shared_block(j_depth, k_depth, k_depth)
    }

    /// The block at a corner, below the surfaces of its three faces by the given depths.
    pub fn corner_block(&self, x_depth: usize, y_depth: usize, z_depth: usize) -> (r: u16)
        ensures
            r == block_for_depth(self@, min3(x_depth as int, y_depth as int, z_depth as int)),
    {
        self.shared_block(x_depth, y_depth, z_depth)
    }

    fn shared_block(&self, a: usize, b: usize, c: usize) -> (r: u16)
        ensures
            r == block_for_depth(self@, min3(a as int, b as int, c as int)),
    {
        let ghost depth = min3(a as int, b as int, c as int);
        proof {
            use_type_invariant(self);
            lemma_surface_entry_covers_all(self@, depth as nat);
            lemma_first_match_found(self@, 0, depth);
        }
        let mut i: usize = 0;
        while i < self.ranges.len()
            invariant
                i <= first_match_from(self@, 0, depth) < self.ranges.len(),
                first_match_from(self@, i as int, depth) == first_match_from(self@, 0, depth),
                self@ == self.ranges@,
                depth == min3(a as int, b as int, c as int),
            decreases self.ranges.len() - i,
        {
            let (block, d) = self.ranges[i];
            assert((a >= d && b >= d && c >= d) == (d <= depth));
            assert(first_match_from(self@, i as int, depth) == if self@[i as int].1 <= depth {
                i as int
            } else {
                first_match_from(self@, i + 1, depth)
            });
            if a >= d && b >= d && c >= d {
                return block;
            }
            proof {
                lemma_first_match_bounds(self@, i + 1, depth);
            }
            i += 1;
        }
        self.ranges[0].0
    }
}

/// The smallest of three integers.
pub open spec fn min3(a: int, b: int, c: int) -> int {
    if a <= b && a <= c {
        a
    } else if b <= c {
        b
    } else {
        c
    }
}

/// A table with an entry of minimum depth 0 resolves every depth, so a lookup
/// in it can never fail.
pub proof fn lemma_surface_entry_covers_all(ranges: Seq<(u16, usize)>, depth: nat)
    requires
        has_surface_entry(ranges),
    ensures
        covers_depth(ranges, depth as int),
        0 <= first_match_from(ranges, 0, depth as int) < ranges.len(),
{
    let i = choose|i: int| 0 <= i < ranges.len() && #[trigger] ranges[i].1 == 0;
    assert(ranges[i].1 <= depth as int);
    lemma_first_match_found(ranges, 0, depth as int);
}

/// Marks that this is for a grass biosphere
#[derive(Debug, Clone, Copy, PartialEq, Eq, Structural)]
pub struct GrassBiosphereMarker;

/// Creates a grass planet
#[derive(Debug, Clone, Copy, PartialEq, Eq, Structural)]
pub struct GrassBiosphere;

impl GrassBiosphere {
    /// The marker that planets of this biosphere carry.
    pub fn get_marker_component(&self) -> (r: GrassBiosphereMarker) {
        GrassBiosphereMarker
    }
}

/// The grass biosphere's layers: stone from depth 5 down, dirt from depth 1,
/// grass on top.
pub fn make_block_ranges(stone: u16, dirt: u16, grass: u16) -> (r: BlockRanges)
    ensures
        r@ == seq![(stone, 5usize), (dirt, 1usize), (grass, 0usize)],
        has_surface_entry(r@),
{
    let ranges = vec![(stone, 5), (dirt, 1), (grass, 0)];
    assert(ranges@[2].1 == 0);
    BlockRanges::new(ranges).unwrap()
}

} // verus!
