//! The seed the world is generated from.

use vstd::prelude::*;

verus! {

/// This sets the seed the server uses to generate the universe
#[derive(Debug, Clone, Copy, PartialEq, Eq, Structural)]
pub struct ServerSeed(pub u64);

impl ServerSeed {
    /// Gets the u64 representation of this seed
    pub fn as_u64(&self) -> (r: u64)
        ensures
            r == self.0,
    {
        self.0
    }

    /// Gets the u32 representation of this seed: its low 32 bits.
    pub fn as_u32(&self) -> (r: u32)
        ensures
            r == self.0 % 0x1_0000_0000,
    {
        (self.0 % 0x1_0000_0000) as u32
    }
}

} // verus!
