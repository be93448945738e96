use cosmos_terrain::biosphere::make_block_ranges;
use cosmos_terrain::block::{BlockFace, AIR_BLOCK_ID};
use cosmos_terrain::chunk::{Chunk, CHUNK_DIMENSIONS};
use cosmos_terrain::generation::{
    column_seed, do_corner, do_edge, do_face, generate_chunk, middle_air_start, site_of, ChunkSite, ColumnHeights,
    N_COLUMNS,
};
use cosmos_terrain::planet::{chunk_faces, planet_face, ChunkFaces};

const STONE: u16 = 3;
const DIRT: u16 = 2;
const GRASS: u16 = 1;
const SIDE: usize = 512;

fn site(cx: usize, cy: usize, cz: usize) -> ChunkSite {
    site_of(&Chunk::new(cx, cy, cz), SIDE)
}

#[test]
fn planet_faces_by_nearest_axis() {
    assert_eq!(planet_face(256, 500, 256, 512, 512, 512), BlockFace::Top);
    assert_eq!(planet_face(256, 3, 256, 512, 512, 512), BlockFace::Bottom);
    assert_eq!(planet_face(500, 256, 256, 512, 512, 512), BlockFace::Right);
    assert_eq!(planet_face(3, 256, 256, 512, 512, 512), BlockFace::Left);
    assert_eq!(planet_face(256, 256, 500, 512, 512, 512), BlockFace::Front);
    assert_eq!(planet_face(256, 256, 3, 512, 512, 512), BlockFace::Back);
    // Ties go to y, then x.
    assert_eq!(planet_face(500, 500, 256, 512, 512, 512), BlockFace::Top);
    assert_eq!(planet_face(500, 256, 500, 512, 512, 512), BlockFace::Right);
    assert_eq!(planet_face(256, 256, 256, 512, 512, 512), BlockFace::Top);
}

#[test]
fn chunk_classification() {
    assert_eq!(chunk_faces(224, 480, 224, SIDE), ChunkFaces { x: None, y: Some(BlockFace::Top), z: None });
    assert_eq!(
        chunk_faces(480, 480, 224, SIDE),
        ChunkFaces { x: Some(BlockFace::Right), y: Some(BlockFace::Top), z: None }
    );
    assert_eq!(
        chunk_faces(480, 480, 480, SIDE),
        ChunkFaces { x: Some(BlockFace::Right), y: Some(BlockFace::Top), z: Some(BlockFace::Front) }
    );
    assert_eq!(
        chunk_faces(0, 0, 0, SIDE),
        ChunkFaces { x: Some(BlockFace::Left), y: Some(BlockFace::Bottom), z: Some(BlockFace::Back) }
    );
}

#[test]
fn middle_chunk_keeps_one_face_per_axis() {
    // A chunk at the very middle reaches both sides of the y axis; the top wins.
    let faces = chunk_faces(224, 224, 224, SIDE);
    assert_eq!(faces.y, Some(BlockFace::Top));
}

#[test]
fn seeds_fix_the_face_axis() {
    let s = site(7, 15, 7);
    let mas = middle_air_start(SIDE);
    assert_eq!(mas, 352);
    assert_eq!(column_seed(BlockFace::Top, s, 3, 4, mas), (224 + 3, 352, 224 + 4));
    assert_eq!(column_seed(BlockFace::Bottom, s, 3, 4, mas), (224 + 3, 160, 224 + 4));
    assert_eq!(column_seed(BlockFace::Right, s, 3, 4, mas), (352, 480 + 3, 224 + 4));
    assert_eq!(column_seed(BlockFace::Back, s, 3, 4, mas), (224 + 3, 480 + 4, 160));
}

#[test]
fn face_fill_layers() {
    let s = site(7, 15, 7);
    let heights = vec![490usize; N_COLUMNS];
    let ranges = make_block_ranges(STONE, DIRT, GRASS);
    let mut chunk = Chunk::new(7, 15, 7);
    do_face(s, &heights, &ranges, &mut chunk, BlockFace::Top);
    for y in 0..CHUNK_DIMENSIONS {
        let expected = match y {
            0..=5 => STONE,
            6..=9 => DIRT,
            10 => GRASS,
            _ => AIR_BLOCK_ID,
        };
        assert_eq!(chunk.block_at(4, y, 9), expected, "y = {y}");
    }
    assert_eq!(chunk.block_up(4, 3, 9), BlockFace::Top);
}

#[test]
fn face_fill_reads_each_column() {
    let s = site(7, 15, 7);
    let mut heights = vec![480usize; N_COLUMNS];
    heights[2 * 32 + 5] = 483;
    let ranges = make_block_ranges(STONE, DIRT, GRASS);
    let mut chunk = Chunk::new(7, 15, 7);
    do_face(s, &heights, &ranges, &mut chunk, BlockFace::Top);
    assert_eq!(chunk.block_at(2, 0, 5), DIRT);
    assert_eq!(chunk.block_at(2, 3, 5), GRASS);
    assert_eq!(chunk.block_at(2, 4, 5), AIR_BLOCK_ID);
    assert_eq!(chunk.block_at(5, 0, 2), GRASS);
    assert_eq!(chunk.block_at(5, 1, 2), AIR_BLOCK_ID);
}

#[test]
fn bottom_face_counts_height_downward() {
    let s = site(7, 0, 7);
    let heights = vec![510usize; N_COLUMNS];
    let ranges = make_block_ranges(STONE, DIRT, GRASS);
    let mut chunk = Chunk::new(7, 0, 7);
    do_face(s, &heights, &ranges, &mut chunk, BlockFace::Bottom);
    // Height toward the bottom face of local y is 512 - y.
    assert_eq!(chunk.block_at(0, 2, 0), GRASS);
    assert_eq!(chunk.block_at(0, 1, 0), AIR_BLOCK_ID);
    assert_eq!(chunk.block_at(0, 3, 0), DIRT);
    assert_eq!(chunk.block_at(0, 7, 0), STONE);
    assert_eq!(chunk.block_up(0, 7, 0), BlockFace::Bottom);
}

#[test]
fn edge_fill() {
    let s = site(15, 15, 7);
    let heights = vec![490usize; N_COLUMNS];
    let ranges = make_block_ranges(STONE, DIRT, GRASS);
    let mut chunk = Chunk::new(15, 15, 7);
    do_edge(s, &heights, &heights, &ranges, &mut chunk, BlockFace::Right, BlockFace::Top);
    assert_eq!(chunk.block_at(0, 0, 0), STONE);
    assert_eq!(chunk.block_up(0, 0, 0), BlockFace::Top);
    // On the top of the right face only.
    assert_eq!(chunk.block_at(10, 0, 0), GRASS);
    assert_eq!(chunk.block_up(10, 0, 0), BlockFace::Right);
    // On the tops of both faces: left out.
    assert_eq!(chunk.block_at(10, 10, 0), AIR_BLOCK_ID);
    assert_eq!(chunk.block_at(20, 20, 0), AIR_BLOCK_ID);
    // Above a top.
    assert_eq!(chunk.block_at(20, 25, 0), AIR_BLOCK_ID);
    assert_eq!(chunk.block_at(15, 3, 0), AIR_BLOCK_ID);
}

#[test]
fn corner_fill() {
    let s = site(15, 15, 15);
    let heights = vec![490usize; N_COLUMNS];
    let ranges = make_block_ranges(STONE, DIRT, GRASS);
    let mut chunk = Chunk::new(15, 15, 15);
    do_corner(s, &heights, &heights, &heights, &ranges, &mut chunk, BlockFace::Right, BlockFace::Top, BlockFace::Front);
    assert_eq!(chunk.block_at(0, 0, 0), STONE);
    assert_eq!(chunk.block_up(0, 0, 0), BlockFace::Top);
    assert_eq!(chunk.block_at(10, 0, 0), GRASS);
    assert_eq!(chunk.block_up(10, 0, 0), BlockFace::Right);
    assert_eq!(chunk.block_at(0, 0, 10), GRASS);
    assert_eq!(chunk.block_up(0, 0, 10), BlockFace::Front);
    assert_eq!(chunk.block_at(10, 10, 10), AIR_BLOCK_ID);
    assert_eq!(chunk.block_at(3, 8, 2), DIRT);
}

#[test]
fn generate_chunk_dispatches_on_faces() {
    let ranges = make_block_ranges(STONE, DIRT, GRASS);
    let heights = ColumnHeights { x: vec![490; N_COLUMNS], y: vec![490; N_COLUMNS], z: vec![490; N_COLUMNS] };

    let mut face = Chunk::new(7, 15, 7);
    generate_chunk(site(7, 15, 7), &heights, &ranges, &mut face);
    let mut expected = Chunk::new(7, 15, 7);
    do_face(site(7, 15, 7), &heights.y, &ranges, &mut expected, BlockFace::Top);

    let mut corner = Chunk::new(15, 15, 15);
    generate_chunk(site(15, 15, 15), &heights, &ranges, &mut corner);
    for (x, y, z) in [(0, 0, 0), (10, 0, 0), (10, 10, 10), (3, 8, 2), (31, 31, 31)] {
        assert_eq!(face.block_at(x, y, z), expected.block_at(x, y, z));
        assert_eq!(face.block_up(x, y, z), expected.block_up(x, y, z));
    }
    assert_eq!(corner.block_at(10, 0, 0), GRASS);
    assert_eq!(corner.block_at(10, 10, 10), AIR_BLOCK_ID);
}

#[test]
fn unread_tables_may_be_empty() {
    let ranges = make_block_ranges(STONE, DIRT, GRASS);
    let heights = ColumnHeights { x: vec![], y: vec![490; N_COLUMNS], z: vec![] };
    let mut chunk = Chunk::new(7, 15, 7);
    generate_chunk(site(7, 15, 7), &heights, &ranges, &mut chunk);
    assert_eq!(chunk.block_at(0, 10, 0), GRASS);
}

#[test]
fn edge_fill_matches_face_fill_off_the_seam() {
    let s = site(15, 15, 7);
    let right = vec![490usize; N_COLUMNS];
    let top = vec![500usize; N_COLUMNS];
    let ranges = make_block_ranges(STONE, DIRT, GRASS);
    let mut edge = Chunk::new(15, 15, 7);
    do_edge(s, &right, &top, &ranges, &mut edge, BlockFace::Right, BlockFace::Top);
    let mut face = Chunk::new(15, 15, 7);
    do_face(s, &right, &ranges, &mut face, BlockFace::Right);
    for x in 0..12 {
        for y in 0..8 {
            for z in 0..CHUNK_DIMENSIONS {
                assert_eq!(edge.block_at(x, y, z), face.block_at(x, y, z), "at {x} {y} {z}");
            }
        }
    }
    assert_eq!(edge.block_at(5, 0, 0), STONE);
    assert_eq!(edge.block_at(10, 0, 0), GRASS);
    assert_eq!(edge.block_at(11, 0, 0), AIR_BLOCK_ID);
}

#[test]
fn corner_fill_matches_face_fill_off_the_seam() {
    let s = site(15, 15, 15);
    let sides = vec![500usize; N_COLUMNS];
    let front = vec![490usize; N_COLUMNS];
    let ranges = make_block_ranges(STONE, DIRT, GRASS);
    let mut corner = Chunk::new(15, 15, 15);
    do_corner(s, &sides, &sides, &front, &ranges, &mut corner, BlockFace::Right, BlockFace::Top, BlockFace::Front);
    let mut face = Chunk::new(15, 15, 15);
    do_face(s, &front, &ranges, &mut face, BlockFace::Front);
    for x in 0..8 {
        for y in 0..8 {
            for z in 0..CHUNK_DIMENSIONS {
                assert_eq!(corner.block_at(x, y, z), face.block_at(x, y, z), "at {x} {y} {z}");
            }
        }
    }
    assert_eq!(corner.block_at(0, 0, 10), GRASS);
    assert_eq!(corner.block_up(0, 0, 10), BlockFace::Front);
}

#[test]
fn edge_fill_caps_tops_once_faces_meet_on_the_seam() {
    let s = site(15, 15, 7);
    let mut right = vec![495usize; N_COLUMNS];
    let mut top = vec![495usize; N_COLUMNS];
    for z in 0..CHUNK_DIMENSIONS {
        // Right's column at local y = 5 and top's column at local x = 5 sit on the seam.
        right[5 * 32 + z] = 480;
        top[5 * 32 + z] = 480;
    }
    let ranges = make_block_ranges(STONE, DIRT, GRASS);
    let mut edge = Chunk::new(15, 15, 7);
    do_edge(s, &right, &top, &ranges, &mut edge, BlockFace::Right, BlockFace::Top);
    // Before the faces meet: terrain up to the sampled tops.
    assert_eq!(edge.block_at(4, 2, 0), STONE);
    // Where they meet, the top sits at the seam height 485.
    assert_eq!(edge.block_at(5, 2, 0), GRASS);
    assert_eq!(edge.block_up(5, 2, 0), BlockFace::Right);
    // Afterwards nothing rises above it, though both tops were sampled at 495.
    for x in 6..CHUNK_DIMENSIONS {
        for y in 0..CHUNK_DIMENSIONS {
            assert_eq!(edge.block_at(x, y, 0), AIR_BLOCK_ID, "at {x} {y}");
        }
    }
}
