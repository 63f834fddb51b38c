use voxel_world::WorldError;
use voxel_world::block::{Block, BlockPositionInChunk, BlockType};
use voxel_world::config::WorldConfig;
use voxel_world::heightmap::{HeightmapField, SAMPLE_ONE};
use voxel_world::terrain::build_chunk;

fn field_with_column(size: usize, col: (usize, usize), value: u32) -> HeightmapField {
    let mut samples = vec![0u32; size * size];
    samples[col.0 * size + col.1] = value;
    HeightmapField::from_samples(size, samples).unwrap()
}

#[test]
fn config_rejects_zero_extents() {
    assert_eq!(
        WorldConfig::new(0, 1, 8, 5, 0).unwrap_err(),
        WorldError::ConfigurationError
    );
    assert_eq!(
        WorldConfig::new(16, 0, 8, 5, 0).unwrap_err(),
        WorldError::ConfigurationError
    );
    assert_eq!(
        WorldConfig::new(16, 1, 0, 0, 0).unwrap_err(),
        WorldError::ConfigurationError
    );
}

#[test]
fn config_rejects_vertical_mapping_reaching_the_top() {
    // scale + offset must stay strictly below the world height
    assert_eq!(
        WorldConfig::new(16, 1, 8, 5, 3).unwrap_err(),
        WorldError::ConfigurationError
    );
    assert!(WorldConfig::new(16, 1, 8, 5, 2).is_ok());
}

#[test]
fn create_block_rejects_the_placeholder_type() {
    let pos = BlockPositionInChunk { x: 1, y: 2, z: 3 };
    let err = Block::create(BlockType::Mixed, pos).unwrap_err();
    assert_eq!(err, WorldError::UnimplementedBlockType);
    let ok = Block::create(BlockType::Grass, pos).unwrap();
    assert_eq!(ok.block_type, BlockType::Grass);
    assert_eq!(ok.position, pos);
    assert!(ok.visible);
}

#[test]
fn build_chunk_rejects_coordinates_outside_the_heightmap() {
    let cfg = WorldConfig::new(16, 1, 64, 5, 0).unwrap();
    let hm = field_with_column(16, (0, 0), 0);
    assert_eq!(
        build_chunk(1, 0, &hm, &cfg).unwrap_err(),
        WorldError::InvariantViolation
    );
    assert_eq!(
        build_chunk(0, -1, &hm, &cfg).unwrap_err(),
        WorldError::InvariantViolation
    );
    assert!(build_chunk(0, 0, &hm, &cfg).is_ok());
}

#[test]
fn column_solids_form_contiguous_range_with_one_grass_surface() {
    let cfg = WorldConfig::new(16, 1, 64, 5, 0).unwrap();
    let hm = field_with_column(16, (8, 8), SAMPLE_ONE);
    let chunk = build_chunk(0, 0, &hm, &cfg).unwrap();
    // the raised column maps to surface level 5, all others to level 0
    for (lx, lz, h) in [(8usize, 8usize, 5usize), (0, 0, 0), (15, 3, 0)] {
        let mut grass_levels = Vec::new();
        for y in 0..64usize {
            let b = chunk.get_block(lx, y, lz).unwrap();
            assert_eq!(b.visible, y <= h, "column ({lx},{lz}) level {y}");
            if b.visible && b.block_type == BlockType::Grass {
                grass_levels.push(y);
            }
            if b.visible && y < h {
                assert_eq!(b.block_type, BlockType::Stone);
            }
        }
        assert_eq!(grass_levels, vec![h]);
    }
}

#[test]
fn voxel_positions_match_their_grid_cell() {
    let cfg = WorldConfig::new(4, 1, 8, 3, 1).unwrap();
    let hm = field_with_column(4, (1, 2), 40000);
    let chunk = build_chunk(0, 0, &hm, &cfg).unwrap();
    for lx in 0..4usize {
        for y in 0..8usize {
            for lz in 0..4usize {
                let b = chunk.get_block(lx, y, lz).unwrap();
                let expected = BlockPositionInChunk {
                    x: lx as u32,
                    y: y as u32,
                    z: lz as u32,
                };
                assert_eq!(b.position, expected);
            }
        }
    }
    assert!(chunk.get_block(4, 0, 0).is_none());
    assert!(chunk.get_block(0, 8, 0).is_none());
}

#[test]
fn rebuilding_a_chunk_gives_identical_voxel_contents() {
    let cfg = WorldConfig::new(16, 2, 64, 10, 16).unwrap();
    let mut samples = vec![0u32; 32 * 32];
    for (i, s) in samples.iter_mut().enumerate() {
        *s = ((i * 2047) % 65537) as u32;
    }
    let hm = HeightmapField::from_samples(32, samples).unwrap();
    let c1 = build_chunk(1, 0, &hm, &cfg).unwrap();
    let c2 = build_chunk(1, 0, &hm, &cfg).unwrap();
    assert_eq!(c1.position, c2.position);
    assert_eq!(c1.blocks, c2.blocks);
}

#[test]
fn surface_level_rounds_to_nearest() {
    // sample/SAMPLE_ONE = 0.5 with scale 5 gives 2.5, which rounds up to 3
    let cfg = WorldConfig::new(4, 1, 16, 5, 0).unwrap();
    let hm = field_with_column(4, (0, 0), 32768);
    let chunk = build_chunk(0, 0, &hm, &cfg).unwrap();
    assert!(chunk.get_block(0, 3, 0).unwrap().visible);
    assert_eq!(
        chunk.get_block(0, 3, 0).unwrap().block_type,
        BlockType::Grass
    );
    assert!(!chunk.get_block(0, 4, 0).unwrap().visible);
}
