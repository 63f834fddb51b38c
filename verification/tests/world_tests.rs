use voxel_world::WorldError;
use voxel_world::block::{Block, BlockMaterialStore, BlockPositionInChunk, BlockType};
use voxel_world::chunk::{Chunk, ChunkPosition, ChunkRegistry};
use voxel_world::config::WorldConfig;
use voxel_world::heightmap::HeightmapField;
use voxel_world::mesh::{Direction, mesh_chunk};
use voxel_world::world::{WorldGenerationPlugin, build_halo, generate_chunks, mesh_world};

fn uniform_field(size: usize, value: u32) -> HeightmapField {
    HeightmapField::from_samples(size, vec![value; size * size]).unwrap()
}

#[test]
fn two_by_two_world_holds_exactly_four_uniquely_keyed_chunks() {
    let cfg = WorldConfig::new(16, 2, 64, 10, 16).unwrap();
    let hm = uniform_field(32, 40000);
    let reg = generate_chunks(&hm, &cfg).unwrap();
    assert_eq!(reg.len(), 4);
    for x in 0..2i32 {
        for z in 0..2i32 {
            let c = reg.get(ChunkPosition { x, y: 0, z }).unwrap();
            assert_eq!(c.position, ChunkPosition { x, y: 0, z });
        }
    }
    let mut keys: Vec<(i32, i32, i32)> = reg
        .chunks
        .iter()
        .map(|c| (c.position.x, c.position.y, c.position.z))
        .collect();
    keys.sort();
    assert_eq!(keys, vec![(0, 0, 0), (0, 0, 1), (1, 0, 0), (1, 0, 1)]);
}

fn tiny_chunk(position: ChunkPosition, block_type: BlockType) -> Chunk {
    let voxel = Block {
        position: BlockPositionInChunk { x: 0, y: 0, z: 0 },
        visible: true,
        block_type,
    };
    Chunk { position, dim: 1, height: 1, blocks: vec![voxel] }
}

#[test]
fn registry_insert_replaces_an_entry_under_the_same_key() {
    let mut reg = ChunkRegistry::new();
    let key = ChunkPosition { x: 1, y: 0, z: 2 };
    reg.insert(tiny_chunk(key, BlockType::Stone));
    reg.insert(tiny_chunk(ChunkPosition { x: 3, y: 0, z: 4 }, BlockType::Soil));
    assert_eq!(reg.len(), 2);
    reg.insert(tiny_chunk(key, BlockType::Grass));
    assert_eq!(reg.len(), 2);
    let stored = reg.get(key).unwrap();
    assert_eq!(stored.blocks[0].block_type, BlockType::Grass);
    assert!(reg.get(ChunkPosition { x: 9, y: 0, z: 9 }).is_none());
}

#[test]
fn generation_rejects_a_heightmap_of_the_wrong_extent() {
    let cfg = WorldConfig::new(16, 2, 64, 10, 16).unwrap();
    let hm = uniform_field(16, 0);
    assert_eq!(
        generate_chunks(&hm, &cfg).unwrap_err(),
        WorldError::InvariantViolation
    );
}

#[test]
fn plugin_entry_point_generates_the_same_world() {
    let cfg = WorldConfig::new(4, 2, 8, 3, 1).unwrap();
    let hm = uniform_field(8, 20000);
    let a = WorldGenerationPlugin::build(&hm, &cfg).unwrap();
    let b = generate_chunks(&hm, &cfg).unwrap();
    assert_eq!(a.len(), b.len());
    for (ca, cb) in a.chunks.iter().zip(b.chunks.iter()) {
        assert_eq!(ca.position, cb.position);
        assert_eq!(ca.blocks, cb.blocks);
    }
}

#[test]
fn halo_is_absent_exactly_at_the_world_edge() {
    let cfg = WorldConfig::new(4, 2, 8, 3, 1).unwrap();
    let hm = uniform_field(8, 20000);
    let reg = generate_chunks(&hm, &cfg).unwrap();

    let corner = build_halo(&reg, &hm, &cfg, 0, 0);
    assert!(corner.x_neg.is_none());
    assert!(corner.z_neg.is_none());
    assert!(corner.x_pos.is_some());
    assert!(corner.z_pos.is_some());

    let other = build_halo(&reg, &hm, &cfg, 1, 1);
    assert!(other.x_neg.is_some());
    assert!(other.z_neg.is_some());
    assert!(other.x_pos.is_none());
    assert!(other.z_pos.is_none());
}

#[test]
fn faces_between_chunks_are_culled_with_a_halo() {
    // a uniform world: every column has the same surface level, so the
    // vertical planes between adjacent chunks are never exposed
    let cfg = WorldConfig::new(4, 2, 8, 3, 1).unwrap();
    let hm = uniform_field(8, 32768);
    let reg = generate_chunks(&hm, &cfg).unwrap();
    let store = BlockMaterialStore::new();

    let c00 = reg.get(ChunkPosition { x: 0, y: 0, z: 0 }).unwrap();
    let halo = build_halo(&reg, &hm, &cfg, 0, 0);
    let faces = mesh_chunk(c00, &halo, &store);

    // no face on the seam toward chunk (1, 0) or (0, 1)
    assert!(!faces
        .iter()
        .any(|f| f.x == 3 && f.direction == Direction::XPos));
    assert!(!faces
        .iter()
        .any(|f| f.z == 3 && f.direction == Direction::ZPos));
    // but the outward world edges are fully exposed
    assert!(faces
        .iter()
        .any(|f| f.x == 0 && f.direction == Direction::XNeg));
    assert!(faces
        .iter()
        .any(|f| f.z == 0 && f.direction == Direction::ZNeg));
}

#[test]
fn mesh_world_covers_every_chunk_and_culls_every_seam() {
    let cfg = WorldConfig::new(4, 2, 8, 3, 1).unwrap();
    let hm = uniform_field(8, 32768);
    let reg = generate_chunks(&hm, &cfg).unwrap();
    let store = BlockMaterialStore::new();
    let meshes = mesh_world(&reg, &hm, &cfg, &store);
    assert_eq!(meshes.len(), 4);
    // uniform surface level 3: a flat world of 8 x 8 columns, 4 levels deep.
    // exposed faces per chunk: 16 tops + 16 bottoms + outward side faces;
    // each chunk shows two outward sides of 4 columns x 4 levels each
    for faces in &meshes {
        assert_eq!(faces.len(), 16 + 16 + 2 * 16);
    }
    // no face anywhere on the interior seams
    for (k, faces) in meshes.iter().enumerate() {
        let (x, z) = (k / 2, k % 2);
        for f in faces {
            if f.direction == Direction::XPos {
                assert_eq!(f.x, 7, "chunk ({x},{z})");
            }
            if f.direction == Direction::XNeg {
                assert_eq!(f.x, 0);
            }
            if f.direction == Direction::ZPos {
                assert_eq!(f.z, 7);
            }
            if f.direction == Direction::ZNeg {
                assert_eq!(f.z, 0);
            }
        }
    }
}

#[test]
fn meshing_an_edge_chunk_without_neighbors_emits_the_seam() {
    let cfg = WorldConfig::new(4, 2, 8, 3, 1).unwrap();
    let hm = uniform_field(8, 32768);
    let reg = generate_chunks(&hm, &cfg).unwrap();
    let store = BlockMaterialStore::new();

    // uniform surface level: sample 32768 with scale 3 and offset 1 gives
    // round(1.5) + 1 = 3; solid levels are 0..=3
    let c11 = reg.get(ChunkPosition { x: 1, y: 0, z: 1 }).unwrap();
    let halo = build_halo(&reg, &hm, &cfg, 1, 1);
    let faces = mesh_chunk(c11, &halo, &store);
    let seam: Vec<_> = faces
        .iter()
        .filter(|f| f.x == 7 && f.direction == Direction::XPos)
        .collect();
    // 4 lateral cells, solid levels 0..=3 each
    assert_eq!(seam.len(), 16);
}
