use cosmos_terrain::chunk::Chunk;
use cosmos_terrain::planet_generator::{
    generate_chunks_near_players, get_requested_chunk, notify_when_done_generating, unload_chunks_far_from_players,
    ChunkRequest, GeneratingChunks,
};
use cosmos_terrain::block::{BlockFace, AIR_BLOCK_ID};
use cosmos_terrain::structure::{BlockChangedEvent, ChunkState, Structure};

fn count(s: &Structure, state: ChunkState) -> usize {
    let mut n = 0;
    for z in 0..s.chunks_length() {
        for y in 0..s.chunks_height() {
            for x in 0..s.chunks_width() {
                if s.get_chunk_state(x, y, z) == state {
                    n += 1;
                }
            }
        }
    }
    n
}

fn chebyshev(a: (i64, i64, i64), b: (usize, usize, usize)) -> i64 {
    let d = |p: i64, q: usize| (p - q as i64).abs();
    d(a.0, b.0).max(d(a.1, b.1)).max(d(a.2, b.2))
}

#[test]
fn new_structure_is_unloaded() {
    let s = Structure::new(16, 4, 16, 9);
    assert_eq!(s.get_entity(), Some(9));
    assert_eq!(count(&s, ChunkState::Unloaded), 16 * 4 * 16);
    assert_eq!(s.get_chunk_state(16, 0, 0), ChunkState::Invalid);
    assert_eq!(s.get_chunk_state(0, 4, 0), ChunkState::Invalid);
    assert_eq!(s.blocks_width(), 512);
    assert_eq!(s.blocks_height(), 128);
}

#[test]
fn generation_around_observer_at_origin() {
    let mut s = Structure::new(16, 4, 16, 1);
    let mut g = GeneratingChunks::new();
    let started = generate_chunks_near_players(&mut s, &mut g, 0, 0, 0);
    assert_eq!(started.len(), 27);
    assert_eq!(g.len(), 27);
    for z in 0..16 {
        for y in 0..4 {
            for x in 0..16 {
                let expected = if chebyshev((0, 0, 0), (x, y, z)) <= 2 { ChunkState::Loading } else { ChunkState::Unloaded };
                assert_eq!(s.get_chunk_state(x, y, z), expected);
            }
        }
    }
}

#[test]
fn generation_then_unload_around_observer() {
    let mut s = Structure::new(16, 4, 16, 1);
    let mut g = GeneratingChunks::new();
    let observer = (8, 2, 8);
    let started = generate_chunks_near_players(&mut s, &mut g, observer.0, observer.1, observer.2);
    assert_eq!(started.len(), 5 * 4 * 5);
    assert_eq!(count(&s, ChunkState::Loading), 100);
    for chunk in started {
        assert!(notify_when_done_generating(&mut s, &mut g, chunk));
    }
    assert_eq!(g.len(), 0);
    assert_eq!(count(&s, ChunkState::Loaded), 100);

    // Loaded chunks far away are unloaded; those within the retention radius stay.
    s.set_chunk(Chunk::new(0, 0, 0));
    s.set_chunk(Chunk::new(5, 0, 5));
    let unloaded = unload_chunks_far_from_players(&mut s, &vec![observer]);
    assert_eq!(unloaded, vec![(0, 0, 0)]);
    assert_eq!(s.get_chunk_state(5, 0, 5), ChunkState::Loaded);

    let moved = (8, 2, 13);
    let unloaded = unload_chunks_far_from_players(&mut s, &vec![moved]);
    assert_eq!(unloaded.len(), 5 * 4 * 4 + 1);
    for z in 0..16 {
        for y in 0..4 {
            for x in 0..16 {
                if s.get_chunk_state(x, y, z) == ChunkState::Loaded {
                    assert!(chebyshev(moved, (x, y, z)) <= 3);
                }
            }
        }
    }
}

#[test]
fn no_duplicate_dispatch() {
    let mut s = Structure::new(4, 4, 4, 1);
    let mut g = GeneratingChunks::new();
    let first = get_requested_chunk(&mut s, &mut g, 1, 2, 3);
    assert!(matches!(first, ChunkRequest::Generate(_)));
    for _ in 0..5 {
        assert!(matches!(get_requested_chunk(&mut s, &mut g, 1, 2, 3), ChunkRequest::Bounce));
    }
    assert!(generate_chunks_near_players(&mut s, &mut g, 1, 2, 3).iter().all(|c| {
        (c.structure_x(), c.structure_y(), c.structure_z()) != (1, 2, 3)
    }));
    let mut n = 0;
    for (x, y, z) in [(1, 2, 3)] {
        if g.is_generating(x, y, z) {
            n += 1;
        }
    }
    assert_eq!(n, 1);
    assert_eq!(g.len(), 4 * 4 * 3);
    let ChunkRequest::Generate(chunk) = first else { unreachable!() };
    assert!(notify_when_done_generating(&mut s, &mut g, chunk));
    assert!(matches!(get_requested_chunk(&mut s, &mut g, 1, 2, 3), ChunkRequest::Ready));
    assert!(s.chunk_from_chunk_coordinates(1, 2, 3).is_some());
    assert!(!notify_when_done_generating(&mut s, &mut g, Chunk::new(1, 2, 3)));
}

#[test]
fn invalid_stays_invalid() {
    let mut s = Structure::new(2, 2, 2, 1);
    let mut g = GeneratingChunks::new();
    assert!(matches!(get_requested_chunk(&mut s, &mut g, 2, 0, 0), ChunkRequest::Invalid));
    generate_chunks_near_players(&mut s, &mut g, 2, 0, 0);
    while let Some(c) = {
        let mut found = None;
        for z in 0..2 {
            for y in 0..2 {
                for x in 0..2 {
                    if found.is_none() && g.is_generating(x, y, z) {
                        found = Some(Chunk::new(x, y, z));
                    }
                }
            }
        }
        found
    } {
        notify_when_done_generating(&mut s, &mut g, c);
    }
    unload_chunks_far_from_players(&mut s, &vec![(100, 100, 100)]);
    assert_eq!(s.get_chunk_state(2, 0, 0), ChunkState::Invalid);
    assert!(matches!(get_requested_chunk(&mut s, &mut g, 2, 0, 0), ChunkRequest::Invalid));
    assert!(s.chunk_from_chunk_coordinates(2, 0, 0).is_none());
    assert_eq!(s.unload_chunk_at(2, 0, 0).is_none(), true);
}

#[test]
fn unload_and_take_for_loading() {
    let mut s = Structure::new(2, 2, 2, 1);
    let mut c = Chunk::new(1, 1, 1);
    c.set_block_at(0, 0, 0, 5, BlockFace::Left);
    s.set_chunk(c);
    assert_eq!(s.get_chunk_state(1, 1, 1), ChunkState::Loaded);
    let taken = s.take_or_create_chunk_for_loading(1, 1, 1);
    assert_eq!(taken.block_at(0, 0, 0), 5);
    assert_eq!(s.get_chunk_state(1, 1, 1), ChunkState::Loading);
    s.set_chunk(taken);
    let back = s.unload_chunk_at(1, 1, 1).unwrap();
    assert_eq!(back.block_up(0, 0, 0), BlockFace::Left);
    assert_eq!(s.get_chunk_state(1, 1, 1), ChunkState::Unloaded);
}

#[test]
fn block_reads_and_writes() {
    let mut s = Structure::new(2, 2, 2, 4);
    assert!(s.is_within_blocks(63, 0, 0));
    assert!(!s.is_within_blocks(64, 0, 0));
    // Not loaded: nothing to write into.
    assert_eq!(s.set_block_at(40, 1, 2, 9, BlockFace::Top), None);
    assert_eq!(s.block_id_at(40, 1, 2), AIR_BLOCK_ID);
    s.set_chunk(Chunk::new(1, 0, 0));
    let ev = s.set_block_at(40, 1, 2, 9, BlockFace::Right);
    assert_eq!(ev, Some(BlockChangedEvent { new_block: 9, old_block: AIR_BLOCK_ID, structure_entity: 4, x: 40, y: 1, z: 2 }));
    assert_eq!(s.block_id_at(40, 1, 2), 9);
    assert!(s.has_block_at(40, 1, 2));
    assert_eq!(s.chunk_at_block_coordinates(40, 1, 2).unwrap().block_at(8, 1, 2), 9);
    assert_eq!(s.chunk_at_block_coordinates(40, 1, 2).unwrap().block_up(8, 1, 2), BlockFace::Right);
    // Same block again: no change to announce.
    assert_eq!(s.set_block_at(40, 1, 2, 9, BlockFace::Left), None);
    let ev = s.remove_block_at(40, 1, 2);
    assert_eq!(ev, Some(BlockChangedEvent { new_block: AIR_BLOCK_ID, old_block: 9, structure_entity: 4, x: 40, y: 1, z: 2 }));
    assert!(!s.has_block_at(40, 1, 2));
    assert_eq!(s.remove_block_at(40, 1, 2), None);
}

#[test]
fn chunk_entities() {
    let mut s = Structure::new(2, 3, 2, 4);
    assert_eq!(s.chunk_entity(1, 2, 1), None);
    s.set_chunk_entity(1, 2, 1, 77);
    assert_eq!(s.chunk_entity(1, 2, 1), Some(77));
    assert_eq!(s.chunk_entity(0, 2, 1), None);
    assert_eq!(s.chunk_entity(5, 2, 1), None);
    assert_eq!(s.get_chunk_state(1, 2, 1), ChunkState::Unloaded);
    s.set_entity(8);
    assert_eq!(s.get_entity(), Some(8));
}
