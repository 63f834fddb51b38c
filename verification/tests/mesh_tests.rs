use voxel_world::block::{BlockMaterialStore, BlockType, Color};
use voxel_world::chunk::Chunk;
use voxel_world::config::WorldConfig;
use voxel_world::heightmap::{HeightmapField, SAMPLE_ONE};
use voxel_world::mesh::{Direction, Face, Halo, face_color, mesh_chunk};
use voxel_world::terrain::build_chunk;

fn single_column_world() -> (WorldConfig, Chunk) {
    // one 16-wide chunk, a single raised column at (8, 8) with surface level
    // 5, every other column at surface level 0
    let cfg = WorldConfig::new(16, 1, 64, 5, 0).unwrap();
    let mut samples = vec![0u32; 16 * 16];
    samples[8 * 16 + 8] = SAMPLE_ONE;
    let hm = HeightmapField::from_samples(16, samples).unwrap();
    let chunk = build_chunk(0, 0, &hm, &cfg).unwrap();
    (cfg, chunk)
}

fn solid_in(chunk: &Chunk, lx: i64, y: i64, lz: i64) -> bool {
    if lx < 0 || y < 0 || lz < 0 {
        return false;
    }
    match chunk.get_block(lx as usize, y as usize, lz as usize) {
        Some(b) => b.visible,
        None => false,
    }
}

const DIRS: [(Direction, i64, i64, i64); 6] = [
    (Direction::XNeg, -1, 0, 0),
    (Direction::XPos, 1, 0, 0),
    (Direction::YNeg, 0, -1, 0),
    (Direction::YPos, 0, 1, 0),
    (Direction::ZNeg, 0, 0, -1),
    (Direction::ZPos, 0, 0, 1),
];

#[test]
fn single_column_emits_top_sides_and_bottom() {
    let (_cfg, chunk) = single_column_world();
    let store = BlockMaterialStore::new();
    let faces = mesh_chunk(&chunk, &Halo::empty(), &store);

    let column: Vec<&Face> = faces.iter().filter(|f| f.x == 8 && f.z == 8).collect();
    // one top face at the surface, one bottom face at the world floor, and
    // five exposed side levels on each of the four sides
    assert_eq!(column.len(), 1 + 1 + 4 * 5);

    let tops: Vec<&&Face> = column
        .iter()
        .filter(|f| f.direction == Direction::YPos)
        .collect();
    assert_eq!(tops.len(), 1);
    assert_eq!(tops[0].y, 5);

    let bottoms: Vec<&&Face> = column
        .iter()
        .filter(|f| f.direction == Direction::YNeg)
        .collect();
    assert_eq!(bottoms.len(), 1);
    assert_eq!(bottoms[0].y, 0);

    // no interior horizontal faces inside the column
    assert!(column.iter().all(|f| {
        match f.direction {
            Direction::YPos => f.y == 5,
            Direction::YNeg => f.y == 0,
            _ => (1..=5).contains(&f.y),
        }
    }));
}

#[test]
fn emitted_faces_match_exposure_exactly() {
    let (_cfg, chunk) = single_column_world();
    let store = BlockMaterialStore::new();
    let halo = Halo::empty();
    let faces = mesh_chunk(&chunk, &halo, &store);

    // brute force: one face per (solid cell, direction) whose neighbor is
    // empty or out of bounds; no halo means every boundary is exposed
    let mut expected: usize = 0;
    for lx in 0..16i64 {
        for y in 0..64i64 {
            for lz in 0..16i64 {
                if !solid_in(&chunk, lx, y, lz) {
                    continue;
                }
                for (_, dx, dy, dz) in DIRS {
                    if !solid_in(&chunk, lx + dx, y + dy, lz + dz) {
                        expected += 1;
                    }
                }
            }
        }
    }
    assert_eq!(faces.len(), expected);

    // every emitted face is a distinct exposed pair
    for (i, a) in faces.iter().enumerate() {
        for b in faces.iter().skip(i + 1) {
            assert_ne!(a, b);
        }
    }
    for f in &faces {
        let (_, dx, dy, dz) = DIRS
            .iter()
            .find(|(d, _, _, _)| *d == f.direction)
            .copied()
            .unwrap();
        assert!(solid_in(&chunk, f.x, f.y, f.z));
        assert!(!solid_in(&chunk, f.x + dx, f.y + dy, f.z + dz));
    }
}

#[test]
fn shared_faces_between_adjacent_solids_are_emitted_by_neither_side() {
    let (_cfg, chunk) = single_column_world();
    let store = BlockMaterialStore::new();
    let faces = mesh_chunk(&chunk, &Halo::empty(), &store);

    // inside the raised column, (8, 2, 8) and (8, 3, 8) are both solid:
    // neither the upward face of the lower nor the downward face of the
    // upper voxel may appear
    assert!(solid_in(&chunk, 8, 2, 8) && solid_in(&chunk, 8, 3, 8));
    assert!(!faces
        .iter()
        .any(|f| f.x == 8 && f.z == 8 && f.y == 2 && f.direction == Direction::YPos));
    assert!(!faces
        .iter()
        .any(|f| f.x == 8 && f.z == 8 && f.y == 3 && f.direction == Direction::YNeg));
}

#[test]
fn world_edge_voxels_emit_their_boundary_faces() {
    let (_cfg, chunk) = single_column_world();
    let store = BlockMaterialStore::new();
    let faces = mesh_chunk(&chunk, &Halo::empty(), &store);

    // the floor is solid at level zero everywhere; with no neighbor chunk,
    // every edge voxel shows its outward side face and its bottom face
    for j in 0..16i64 {
        assert!(faces
            .iter()
            .any(|f| f.x == 0 && f.y == 0 && f.z == j && f.direction == Direction::XNeg));
        assert!(faces
            .iter()
            .any(|f| f.x == 15 && f.y == 0 && f.z == j && f.direction == Direction::XPos));
        assert!(faces
            .iter()
            .any(|f| f.x == j && f.y == 0 && f.z == 0 && f.direction == Direction::ZNeg));
        assert!(faces
            .iter()
            .any(|f| f.x == j && f.y == 0 && f.z == 15 && f.direction == Direction::ZPos));
        assert!(faces
            .iter()
            .any(|f| f.x == j && f.y == 0 && f.z == 7 && f.direction == Direction::YNeg));
    }
}

#[test]
fn grass_faces_are_two_tone() {
    let store = BlockMaterialStore::new();
    let grass_top = face_color(&store, BlockType::Grass, Direction::YPos);
    assert_eq!(grass_top, store.get_color(BlockType::Grass));
    for dir in [
        Direction::XNeg,
        Direction::XPos,
        Direction::YNeg,
        Direction::ZNeg,
        Direction::ZPos,
    ] {
        assert_eq!(face_color(&store, BlockType::Grass, dir), store.get_color(BlockType::Soil));
        assert_eq!(face_color(&store, BlockType::Stone, dir), store.get_color(BlockType::Stone));
    }
}

#[test]
fn face_colors_follow_the_palette() {
    let (_cfg, chunk) = single_column_world();
    let store = BlockMaterialStore::new();
    let faces = mesh_chunk(&chunk, &Halo::empty(), &store);
    let top = faces
        .iter()
        .find(|f| f.x == 8 && f.z == 8 && f.direction == Direction::YPos)
        .unwrap();
    assert_eq!(top.color, Color { r: 0, g: 128, b: 0, a: 255 });
    let side = faces
        .iter()
        .find(|f| f.x == 8 && f.z == 8 && f.y == 5 && f.direction == Direction::XNeg)
        .unwrap();
    assert_eq!(side.color, Color { r: 128, g: 0, b: 0, a: 255 });
    let stone_side = faces
        .iter()
        .find(|f| f.x == 8 && f.z == 8 && f.y == 2 && f.direction == Direction::XNeg)
        .unwrap();
    assert_eq!(stone_side.color, Color { r: 64, g: 64, b: 64, a: 255 });
}

#[test]
fn face_normals_and_corners_describe_the_unit_cube_side() {
    let store = BlockMaterialStore::new();
    let f = Face {
        x: 3,
        y: 5,
        z: 7,
        direction: Direction::YPos,
        color: store.get_color(BlockType::Stone),
    };
    assert_eq!(f.normal(), (0, 1, 0));
    let cs = f.corners();
    assert_eq!(cs.len(), 4);
    for &(x, y, z) in &cs {
        assert_eq!(y, 6);
        assert!(x == 3 || x == 4);
        assert!(z == 7 || z == 8);
    }
    let bottom = Face { direction: Direction::YNeg, ..f };
    assert_eq!(bottom.normal(), (0, -1, 0));
    assert!(bottom.corners().iter().all(|&(_, y, _)| y == 5));
}

#[test]
fn material_store_serves_every_block_type() {
    let store = BlockMaterialStore::new();
    assert_eq!(store.get_material(BlockType::Stone), Some(Color { r: 64, g: 64, b: 64, a: 255 }));
    assert_eq!(store.get_material(BlockType::Soil), Some(Color { r: 128, g: 0, b: 0, a: 255 }));
    assert_eq!(store.get_material(BlockType::Grass), Some(Color { r: 0, g: 128, b: 0, a: 255 }));
    assert_eq!(store.get_material(BlockType::Mixed), Some(Color { r: 255, g: 215, b: 0, a: 255 }));
}
