//! Network channels chunk data and other messages travel on.

use vstd::prelude::*;

verus! {

/// Marks an entity that is not sent to players, such as a chunk entity that
/// players build for themselves.
#[derive(Debug, Clone, Copy, PartialEq, Eq, Structural)]
pub struct NoSendEntity;

/// The network channels; each has its own id.
#[derive(Debug, Clone, Copy, PartialEq, Eq, Structural)]
pub enum NettyChannel {
    /// Reliably sent: guaranteed to arrive. Carries chunk data.
    Reliable,
    /// May never arrive, or arrive corrupted.
    Unreliable,
    /// Laser cannon messages.
    LaserCannonSystem,
    /// Asteroid messages.
    Asteroids,
}

/// The id of each channel.
pub open spec fn channel_id(c: NettyChannel) -> u8 {
    match c {
        NettyChannel::Reliable => 0,
        NettyChannel::Unreliable => 1,
        NettyChannel::LaserCannonSystem => 2,
        NettyChannel::Asteroids => 3,
    }
}

impl NettyChannel {
    /// Gets the ID used in a netty channel
    pub fn id(&self) -> (r: u8)
        ensures
            r == channel_id(*self),
    {
        match self {
            Self::Reliable => 0,
            Self::Unreliable => 1,
            Self::LaserCannonSystem => 2,
            Self::Asteroids => 3,
        }
    }
}

} // verus!
