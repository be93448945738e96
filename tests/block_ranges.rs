use cosmos_terrain::biosphere::{make_block_ranges, BlockRanges, GrassBiosphere, GrassBiosphereMarker};

const STONE: u16 = 3;
const DIRT: u16 = 2;
const GRASS: u16 = 1;

#[test]
fn grass_layers_by_depth() {
    let ranges = make_block_ranges(STONE, DIRT, GRASS);
    assert_eq!(ranges.face_block(0), GRASS);
    for depth in 1..5 {
        assert_eq!(ranges.face_block(depth), DIRT);
    }
    for depth in 5..40 {
        assert_eq!(ranges.face_block(depth), STONE);
    }
    assert_eq!(ranges.face_block(usize::MAX), STONE);
}

#[test]
fn table_without_surface_entry_is_refused() {
    assert!(BlockRanges::new(vec![(STONE, 5), (DIRT, 1)]).is_none());
    assert!(BlockRanges::new(vec![]).is_none());
    assert!(BlockRanges::new(vec![(STONE, 5), (DIRT, 1), (GRASS, 0)]).is_some());
    assert!(BlockRanges::new(vec![(GRASS, 0)]).is_some());
}

#[test]
fn table_with_surface_entry_resolves_every_depth() {
    let ranges = BlockRanges::new(vec![(7, 9), (8, 0), (9, 3)]).expect("has a surface entry");
    for depth in [0, 1, 2, 3, 8, 9, 10, 1000, usize::MAX] {
        let block = ranges.face_block(depth);
        assert!(block == 7 || block == 8);
    }
    assert_eq!(ranges.face_block(9), 7);
    assert_eq!(ranges.face_block(8), 8);
}

#[test]
fn edge_and_corner_use_the_shallowest_depth() {
    let ranges = make_block_ranges(STONE, DIRT, GRASS);
    assert_eq!(ranges.edge_block(10, 0), GRASS);
    assert_eq!(ranges.edge_block(3, 10), DIRT);
    assert_eq!(ranges.edge_block(5, 6), STONE);
    assert_eq!(ranges.corner_block(10, 10, 0), GRASS);
    assert_eq!(ranges.corner_block(10, 2, 10), DIRT);
    assert_eq!(ranges.corner_block(5, 5, 5), STONE);
}

#[test]
fn grass_biosphere_marker() {
    assert_eq!(GrassBiosphere.get_marker_component(), GrassBiosphereMarker);
}
