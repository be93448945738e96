use cosmos_terrain::block::{height_toward_face, BlockFace};
use cosmos_terrain::init_world::ServerSeed;
use cosmos_terrain::netty::NettyChannel;
use cosmos_terrain::persistence::begin_loading;

#[test]
fn channel_ids() {
    assert_eq!(NettyChannel::Reliable.id(), 0);
    assert_eq!(NettyChannel::Unreliable.id(), 1);
    assert_eq!(NettyChannel::LaserCannonSystem.id(), 2);
    assert_eq!(NettyChannel::Asteroids.id(), 3);
}

#[test]
fn seed_views() {
    let seed = ServerSeed(0x1234_5678_9abc_def0);
    assert_eq!(seed.as_u64(), 0x1234_5678_9abc_def0);
    assert_eq!(seed.as_u32(), 0x9abc_def0);
    assert_eq!(ServerSeed(7).as_u32(), 7);
}

#[test]
fn heights_toward_faces() {
    assert_eq!(height_toward_face(BlockFace::Top, 10, 64), 10);
    assert_eq!(height_toward_face(BlockFace::Bottom, 10, 64), 54);
    assert_eq!(height_toward_face(BlockFace::Left, 0, 64), 64);
    assert_eq!(BlockFace::Front.opposite(), BlockFace::Back);
    begin_loading();
}
