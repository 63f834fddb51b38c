//! World generation: the one-shot batch pass that builds every chunk of the
//! configured grid from the heightmap and collects them in the registry.
//! Generation is pure computation over in-memory data — it either fills the
//! whole grid or fails before storing anything.

use vstd::prelude::*;

verus! {

use vstd::arithmetic::div_mod::lemma_fundamental_div_mod_converse;

use crate::WorldError;
use crate::chunk::{Chunk, ChunkPosition, ChunkRegistry};
use crate::config::{MAX_WORLD_SIZE, WorldConfig};
use crate::heightmap::HeightmapField;
use crate::mesh::{Direction, Face, Halo, boundary_plane, mesh_chunk};
use crate::terrain::{build_chunk, chunk_in_grid, is_built_chunk, spec_voxel};

/// What world generation promises of the registry it returns: one chunk per
/// grid coordinate, stored in row-major order — the entry at index `k` is
/// the chunk built for `(k / world_size, k % world_size)` — with unique
/// keys.
pub open spec fn is_generated_world(
    reg: ChunkRegistry,
    hm: HeightmapField,
    cfg: WorldConfig,
) -> bool {
    &&& reg.wf()
    &&& reg.chunks@.len() == cfg.world_size * cfg.world_size
    &&& forall|k: int|
        0 <= k < reg.chunks@.len() ==> is_built_chunk(
            #[trigger] reg.chunks@[k],
            hm,
            cfg,
            (k / cfg.world_size as int) as i32,
            (k % cfg.world_size as int) as i32,
        )
}

/// Decoding a row-major world-grid index recovers the coordinates that
/// encoded it.
pub(crate) proof fn lemma_world_encode_decode(x: int, z: int, ws: int)
    requires
        1 <= ws,
        0 <= x,
        0 <= z < ws,
    ensures
        (x * ws + z) / ws == x,
        (x * ws + z) % ws == z,
{
    lemma_fundamental_div_mod_converse(x * ws + z, ws, x, z);
}

/// Generates every chunk of the configured grid, row-major, and stores each
/// in the registry keyed by `(x, 0, z)`. Fails with an invariant violation
/// exactly when the heightmap's extent does not match the configured grid —
/// a mismatch aborts generation instead of being clamped.
pub fn generate_chunks(heightmap: &HeightmapField, config: &WorldConfig) -> (r: Result<
    ChunkRegistry,
    WorldError,
>)
    requires
        heightmap.wf(),
        config.valid(),
    ensures
        match r {
            Ok(reg) => {
                &&& heightmap.size == config.spec_field_size()
                &&& is_generated_world(reg, *heightmap, *config)
            },
            Err(e) => {
                &&& e == WorldError::InvariantViolation
                &&& heightmap.size != config.spec_field_size()
            },
        },
{
    let ws: usize = config.world_size;
    let dim: usize = config.chunk_dim;
    if heightmap.size != config.field_size() {
        return Err(WorldError::InvariantViolation);
    }
    let mut registry = ChunkRegistry::new();
    let mut x: usize = 0;
    proof {
        assert(0 * (ws as int) == 0) by (nonlinear_arith);
    }
    while x < ws
        invariant
            heightmap.wf(),
            config.valid(),
            ws == config.world_size,
            dim == config.chunk_dim,
            heightmap.size == config.spec_field_size(),
            x <= ws,
            registry.wf(),
            registry.chunks@.len() == x * ws,
            forall|k: int|
                0 <= k < registry.chunks@.len() ==> is_built_chunk(
                    #[trigger] registry.chunks@[k],
                    *heightmap,
                    *config,
                    (k / ws as int) as i32,
                    (k % ws as int) as i32,
                ),
        decreases ws - x,
    {
        let mut z: usize = 0;
        while z < ws
            invariant
                heightmap.wf(),
                config.valid(),
                ws == config.world_size,
                dim == config.chunk_dim,
                heightmap.size == config.spec_field_size(),
                x < ws,
                z <= ws,
                registry.wf(),
                registry.chunks@.len() == x * ws + z,
                forall|k: int|
                    0 <= k < registry.chunks@.len() ==> is_built_chunk(
                        #[trigger] registry.chunks@[k],
                        *heightmap,
                        *config,
                        (k / ws as int) as i32,
                        (k % ws as int) as i32,
                    ),
            decreases ws - z,
        {
            proof {
                assert((x + 1) * dim <= ws * dim && (z + 1) * dim <= ws * dim && dim * ws == ws
                    * dim) by (nonlinear_arith)
                    requires
                        0 <= x < ws,
                        0 <= z < ws,
                        0 <= dim,
                ;
                assert(chunk_in_grid(*heightmap, *config, x as int, z as int));
            }
            let built = build_chunk(x as i32, z as i32, heightmap, config);
            match built {
                Ok(chunk) => {
                    proof {
                        lemma_world_encode_decode(x as int, z as int, ws as int);
                        assert forall|k: int|
                            0 <= k < registry.chunks@.len() implies #[trigger] registry.chunks@[k].position
                            != chunk.position by {
                            if registry.chunks@[k].position == chunk.position {
                                assert(registry.chunks@[k].position == (ChunkPosition {
                                    x: (k / ws as int) as i32,
                                    y: 0,
                                    z: (k % ws as int) as i32,
                                }));
                                assert((k / ws as int) as i32 == x as i32);
                                assert((k % ws as int) as i32 == z as i32);
                                assert((0 <= (k / (ws as int)) < ws) && (0 <= (k % (ws as int))
                                    < ws)) by (nonlinear_arith)
                                    requires
                                        0 <= k,
                                        k < (x as int) * (ws as int) + (z as int),
                                        1 <= (ws as int),
                                        0 <= (x as int) < (ws as int),
                                        0 <= (z as int) < (ws as int),
                                ;
                                assert(k / ws as int == x as int);
                                assert(k % ws as int == z as int);
                                vstd::arithmetic::div_mod::lemma_fundamental_div_mod(
                                    k,
                                    ws as int,
                                );
                                assert(k == (ws as int) * (x as int) + (z as int));
                                assert((ws as int) * (x as int) == (x as int) * (ws as int))
                                    by (nonlinear_arith);
                                assert(false);
                            }
                        }
                        assert(!registry.spec_contains(chunk.position));
                    }
                    let ghost reg0 = registry.chunks@;
                    registry.insert(chunk);
                    proof {
                        assert(registry.chunks@ == reg0.push(chunk));
                        assert forall|k: int|
                            0 <= k < registry.chunks@.len() implies is_built_chunk(
                            #[trigger] registry.chunks@[k],
                            *heightmap,
                            *config,
                            (k / ws as int) as i32,
                            (k % ws as int) as i32,
                        ) by {
                            if k < reg0.len() {
                                assert(registry.chunks@[k] == reg0[k]);
                            } else {
                                assert(registry.chunks@[k] == chunk);
                                assert(k == x as int * ws + z as int);
                            }
                        }
                    }
                },
                Err(e) => {
                    proof {
                        assert(false);
                    }
                    return Err(e);
                },
            }
            z = z + 1;
        }
        proof {
            assert((x as int) * ws + ws == (x as int + 1) * ws) by (nonlinear_arith);
        }
        x = x + 1;
    }
    Ok(registry)
}

/// A chunk found in a generated world's registry under a grid position is
/// the chunk built for that position.
pub proof fn lemma_generated_chunk_at(
    reg: ChunkRegistry,
    hm: HeightmapField,
    cfg: WorldConfig,
    c: Chunk,
    x: int,
    z: int,
)
    requires
        cfg.valid(),
        is_generated_world(reg, hm, cfg),
        0 <= x < cfg.world_size,
        0 <= z < cfg.world_size,
        exists|i: int| 0 <= i < reg.chunks@.len() && c == #[trigger] reg.chunks@[i],
        c.position == (ChunkPosition { x: x as i32, y: 0, z: z as i32 }),
    ensures
        is_built_chunk(c, hm, cfg, x as i32, z as i32),
{
    let ws = cfg.world_size as int;
    let i = choose|i: int| 0 <= i < reg.chunks@.len() && c == reg.chunks@[i];
    assert(is_built_chunk(reg.chunks@[i], hm, cfg, (i / ws) as i32, (i % ws) as i32));
    assert((0 <= i / ws < ws) && (0 <= i % ws < ws)) by (nonlinear_arith)
        requires
            0 <= i,
            i < ws * ws,
            1 <= ws,
    ;
    assert(c.position == (ChunkPosition { x: (i / ws) as i32, y: 0, z: (i % ws) as i32 }));
    assert(i / ws == x && i % ws == z);
}

/// The halo that meshing chunk `(x, z)` of a generated world calls for:
/// a side has no plane exactly when the chunk sits at the world edge on
/// that side, and a present plane holds the classified solidity of the
/// adjacent chunk's facing boundary layer.
pub open spec fn is_world_halo(
    halo: Halo,
    hm: HeightmapField,
    cfg: WorldConfig,
    x: int,
    z: int,
) -> bool {
    let dim = cfg.chunk_dim as int;
    let height = cfg.world_height as int;
    let ws = cfg.world_size as int;
    &&& halo.wf(dim, height)
    &&& (halo.x_neg is None <==> x == 0)
    &&& (halo.x_pos is None <==> x == ws - 1)
    &&& (halo.z_neg is None <==> z == 0)
    &&& (halo.z_pos is None <==> z == ws - 1)
    &&& (halo.x_neg matches Some(p) ==> forall|y: int, j: int|
        0 <= y < height && 0 <= j < dim ==> #[trigger] p@[y * dim + j] == spec_voxel(
            hm,
            cfg,
            x - 1,
            z,
            dim - 1,
            y,
            j,
        ).visible)
    &&& (halo.x_pos matches Some(p) ==> forall|y: int, j: int|
        0 <= y < height && 0 <= j < dim ==> #[trigger] p@[y * dim + j] == spec_voxel(
            hm,
            cfg,
            x + 1,
            z,
            0,
            y,
            j,
        ).visible)
    &&& (halo.z_neg matches Some(p) ==> forall|y: int, j: int|
        0 <= y < height && 0 <= j < dim ==> #[trigger] p@[y * dim + j] == spec_voxel(
            hm,
            cfg,
            x,
            z - 1,
            j,
            y,
            dim - 1,
        ).visible)
    &&& (halo.z_pos matches Some(p) ==> forall|y: int, j: int|
        0 <= y < height && 0 <= j < dim ==> #[trigger] p@[y * dim + j] == spec_voxel(
            hm,
            cfg,
            x,
            z + 1,
            j,
            y,
            0,
        ).visible)
}

/// Builds the halo for chunk `(x, z)` of a generated world, sampling the
/// facing boundary layer of each neighbor chunk from the registry and
/// leaving a side empty where the world ends. Meshing must run after the
/// whole grid is generated; taking the finished registry enforces that
/// stage boundary.
pub fn build_halo(
    registry: &ChunkRegistry,
    heightmap: &HeightmapField,
    config: &WorldConfig,
    x: usize,
    z: usize,
) -> (h: Halo)
    requires
        config.valid(),
        is_generated_world(*registry, *heightmap, *config),
        x < config.world_size,
        z < config.world_size,
    ensures
        is_world_halo(h, *heightmap, *config, x as int, z as int),
{
    let ws: usize = config.world_size;
    let x_neg: Option<Vec<bool>> = if x == 0 {
        None
    } else {
        lookup_boundary(registry, heightmap, config, x - 1, z, Direction::XPos)
    };
    let x_pos: Option<Vec<bool>> = if x + 1 == ws {
        None
    } else {
        lookup_boundary(registry, heightmap, config, x + 1, z, Direction::XNeg)
    };
    let z_neg: Option<Vec<bool>> = if z == 0 {
        None
    } else {
        lookup_boundary(registry, heightmap, config, x, z - 1, Direction::ZPos)
    };
    let z_pos: Option<Vec<bool>> = if z + 1 == ws {
        None
    } else {
        lookup_boundary(registry, heightmap, config, x, z + 1, Direction::ZNeg)
    };
    Halo { x_neg, x_pos, z_neg, z_pos }
}

/// The classified solidity of the boundary cell of chunk `(nx, nz)` that
/// faces direction `dir`, at vertical level `y` and lateral index `j`.
pub open spec fn boundary_cell_visible(
    hm: HeightmapField,
    cfg: WorldConfig,
    nx: int,
    nz: int,
    dir: Direction,
    y: int,
    j: int,
) -> bool {
    let dim = cfg.chunk_dim as int;
    match dir {
        Direction::XNeg => spec_voxel(hm, cfg, nx, nz, 0, y, j).visible,
        Direction::XPos => spec_voxel(hm, cfg, nx, nz, dim - 1, y, j).visible,
        Direction::ZNeg => spec_voxel(hm, cfg, nx, nz, j, y, 0).visible,
        Direction::ZPos => spec_voxel(hm, cfg, nx, nz, j, y, dim - 1).visible,
        _ => false,
    }
}

/// Looks the chunk at `(nx, nz)` up and extracts its boundary layer facing
/// `dir`: the halo plane its neighbor on that side meshes against.
fn lookup_boundary(
    registry: &ChunkRegistry,
    heightmap: &HeightmapField,
    config: &WorldConfig,
    nx: usize,
    nz: usize,
    dir: Direction,
) -> (r: Option<Vec<bool>>)
    requires
        config.valid(),
        is_generated_world(*registry, *heightmap, *config),
        nx < config.world_size,
        nz < config.world_size,
        crate::mesh::dir_dy(dir) == 0,
    ensures
        r matches Some(p) && p@.len() == config.world_height * config.chunk_dim && forall|
            y: int,
            j: int,
        |
            0 <= y < config.world_height && 0 <= j < config.chunk_dim ==> #[trigger] p@[y
                * config.chunk_dim + j] == boundary_cell_visible(
                *heightmap,
                *config,
                nx as int,
                nz as int,
                dir,
                y,
                j,
            ),
{
    proof {
        lemma_registry_covers_grid(*registry, *heightmap, *config, nx as int, nz as int);
    }
    let position = ChunkPosition { x: nx as i32, y: 0, z: nz as i32 };
    match registry.get(position) {
        Some(neighbor) => {
            proof {
                lemma_generated_chunk_at(
                    *registry,
                    *heightmap,
                    *config,
                    *neighbor,
                    nx as int,
                    nz as int,
                );
            }
            let p = boundary_plane(neighbor, dir);
            proof {
                let dim = config.chunk_dim as int;
                let height = config.world_height as int;
                assert(neighbor.dim == config.chunk_dim && neighbor.height
                    == config.world_height);
                assert forall|y: int, j: int|
                    0 <= y < height && 0 <= j < dim implies #[trigger] p@[y * dim + j]
                    == boundary_cell_visible(
                    *heightmap,
                    *config,
                    nx as int,
                    nz as int,
                    dir,
                    y,
                    j,
                ) by {
                    assert(p@[y * (neighbor.dim as int) + j] == crate::mesh::boundary_solid(
                        *neighbor,
                        dir,
                        y,
                        j,
                    ));
                    if dir == Direction::XNeg {
                        assert(neighbor.block_at(0, y, j) == spec_voxel(
                            *heightmap,
                            *config,
                            nx as int,
                            nz as int,
                            0,
                            y,
                            j,
                        ));
                    } else if dir == Direction::XPos {
                        assert(neighbor.block_at(dim - 1, y, j) == spec_voxel(
                            *heightmap,
                            *config,
                            nx as int,
                            nz as int,
                            dim - 1,
                            y,
                            j,
                        ));
                    } else if dir == Direction::ZNeg {
                        assert(neighbor.block_at(j, y, 0) == spec_voxel(
                            *heightmap,
                            *config,
                            nx as int,
                            nz as int,
                            j,
                            y,
                            0,
                        ));
                    } else {
                        assert(neighbor.block_at(j, y, dim - 1) == spec_voxel(
                            *heightmap,
                            *config,
                            nx as int,
                            nz as int,
                            j,
                            y,
                            dim - 1,
                        ));
                    }
                }
            }
            Some(p)
        },
        None => {
            proof {
                assert(false);
            }
            None
        },
    }
}

/// Whether a cell of chunk `(x, z)` faces out of the whole generated grid
/// in a direction: the chunk sits on the grid's edge on that side and the
/// cell sits on the chunk's matching boundary layer — or the direction is
/// vertical and the cell sits at the world's bottom or top.
pub open spec fn at_grid_edge(
    cfg: WorldConfig,
    x: int,
    z: int,
    lx: int,
    y: int,
    lz: int,
    dir: Direction,
) -> bool {
    match dir {
        Direction::XNeg => x == 0 && lx == 0,
        Direction::XPos => x == cfg.world_size - 1 && lx == cfg.chunk_dim - 1,
        Direction::YNeg => y == 0,
        Direction::YPos => y == cfg.world_height - 1,
        Direction::ZNeg => z == 0 && lz == 0,
        Direction::ZPos => z == cfg.world_size - 1 && lz == cfg.chunk_dim - 1,
    }
}

/// Boundary exposure, world level: a solid voxel on the edge of the
/// generated grid — where no neighbor chunk exists — always has its
/// outward boundary face in the chunk's mesh.
pub proof fn lemma_world_boundary_face(
    c: Chunk,
    halo: Halo,
    store: crate::block::BlockMaterialStore,
    hm: HeightmapField,
    cfg: WorldConfig,
    x: i32,
    z: i32,
    lx: int,
    y: int,
    lz: int,
    dir: Direction,
)
    requires
        cfg.valid(),
        is_built_chunk(c, hm, cfg, x, z),
        is_world_halo(halo, hm, cfg, x as int, z as int),
        c.in_bounds(lx, y, lz),
        c.solid_at(lx, y, lz),
        at_grid_edge(cfg, x as int, z as int, lx, y, lz, dir),
    ensures
        exists|i: int|
            0 <= i < crate::mesh::spec_mesh(c, halo, store).len() && crate::mesh::spec_mesh(
                c,
                halo,
                store,
            )[i] == crate::mesh::face_at(c, store, lx, y, lz, dir),
{
    assert(crate::mesh::at_world_edge(c, halo, lx, y, lz, dir));
    crate::mesh::lemma_boundary_exposure(c, halo, store, lx, y, lz, dir);
}

/// Whether the cell of the adjacent chunk that touches `(lx, y, lz)` of
/// chunk `(x, z)` across the chunk boundary in direction `dir` exists and
/// is solid: the cell must sit on the boundary layer toward `dir`, the
/// adjacent chunk must lie inside the grid, and its facing cell must be
/// classified solid.
pub open spec fn adjacent_chunk_cell_solid(
    hm: HeightmapField,
    cfg: WorldConfig,
    x: int,
    z: int,
    lx: int,
    y: int,
    lz: int,
    dir: Direction,
) -> bool {
    match dir {
        Direction::XNeg => x > 0 && lx == 0 && boundary_cell_visible(
            hm,
            cfg,
            x - 1,
            z,
            Direction::XPos,
            y,
            lz,
        ),
        Direction::XPos => x < cfg.world_size - 1 && lx == cfg.chunk_dim - 1
            && boundary_cell_visible(hm, cfg, x + 1, z, Direction::XNeg, y, lz),
        Direction::ZNeg => z > 0 && lz == 0 && boundary_cell_visible(
            hm,
            cfg,
            x,
            z - 1,
            Direction::ZPos,
            y,
            lx,
        ),
        Direction::ZPos => z < cfg.world_size - 1 && lz == cfg.chunk_dim - 1
            && boundary_cell_visible(hm, cfg, x, z + 1, Direction::ZNeg, y, lx),
        _ => false,
    }
}

/// No double culling across chunks: when a solid boundary voxel touches a
/// solid voxel of the adjacent chunk, meshing against the world halo emits
/// their shared face from this side no more than it does from the other —
/// namely not at all.
pub proof fn lemma_cross_chunk_culling(
    c: Chunk,
    halo: Halo,
    store: crate::block::BlockMaterialStore,
    hm: HeightmapField,
    cfg: WorldConfig,
    x: i32,
    z: i32,
    lx: int,
    y: int,
    lz: int,
    dir: Direction,
)
    requires
        cfg.valid(),
        is_built_chunk(c, hm, cfg, x, z),
        is_world_halo(halo, hm, cfg, x as int, z as int),
        c.in_bounds(lx, y, lz),
        c.solid_at(lx, y, lz),
        adjacent_chunk_cell_solid(hm, cfg, x as int, z as int, lx, y, lz, dir),
    ensures
        !exists|i: int|
            0 <= i < crate::mesh::spec_mesh(c, halo, store).len() && crate::mesh::spec_mesh(
                c,
                halo,
                store,
            )[i] == crate::mesh::face_at(c, store, lx, y, lz, dir),
{
    assert(crate::mesh::neighbor_solid(c, halo, lx, y, lz, dir));
    assert(!crate::mesh::exposed(c, halo, lx, y, lz, dir));
    crate::mesh::lemma_mesh_contains_iff(c, halo, store, lx, y, lz, dir);
}

/// The world-generation stage: the entry point the surrounding application
/// wires in at startup. Running it builds the whole chunk grid from a
/// heightmap in one batch.
pub struct WorldGenerationPlugin;

impl WorldGenerationPlugin {
    /// Runs world generation: builds every chunk of the configured grid
    /// from the heightmap into a fresh registry.
    pub fn build(heightmap: &HeightmapField, config: &WorldConfig) -> (r: Result<
        ChunkRegistry,
        WorldError,
    >)
        requires
            heightmap.wf(),
            config.valid(),
        ensures
            match r {
                Ok(reg) => {
                    &&& heightmap.size == config.spec_field_size()
                    &&& is_generated_world(reg, *heightmap, *config)
                },
                Err(e) => {
                    &&& e == WorldError::InvariantViolation
                    &&& heightmap.size != config.spec_field_size()
                },
            },
    {
        generate_chunks(heightmap, config)
    }
}

/// One entry of the world mesh: the faces of chunk `k`, meshed against a
/// halo that matches the generated world at that chunk's grid coordinates.
pub open spec fn is_world_mesh_entry(
    faces: Seq<Face>,
    reg: ChunkRegistry,
    hm: HeightmapField,
    cfg: WorldConfig,
    store: crate::block::BlockMaterialStore,
    k: int,
) -> bool {
    exists|halo: Halo|
        #![trigger is_world_halo(halo, hm, cfg, k / cfg.world_size as int, k % cfg.world_size as int)]
        is_world_halo(halo, hm, cfg, k / cfg.world_size as int, k % cfg.world_size as int)
            && faces == crate::mesh::spec_mesh(reg.chunks@[k], halo, store)
}

/// Meshes every chunk of a generated world, in registry order: the second
/// phase of the two-phase pipeline. Each chunk is meshed against the halo
/// sampled from its already-generated neighbors, so cross-chunk faces are
/// culled exactly and the grid's outer boundary counts as exposed.
pub fn mesh_world(
    registry: &ChunkRegistry,
    heightmap: &HeightmapField,
    config: &WorldConfig,
    store: &crate::block::BlockMaterialStore,
) -> (r: Vec<Vec<Face>>)
    requires
        config.valid(),
        is_generated_world(*registry, *heightmap, *config),
    ensures
        r@.len() == registry.chunks@.len(),
        forall|k: int|
            0 <= k < r@.len() ==> is_world_mesh_entry(
                (#[trigger] r@[k])@,
                *registry,
                *heightmap,
                *config,
                *store,
                k,
            ),
{
    let ws: usize = config.world_size;
    let mut r: Vec<Vec<Face>> = Vec::new();
    let mut x: usize = 0;
    proof {
        assert(0 * (ws as int) == 0) by (nonlinear_arith);
        assert(registry.chunks@.len() == (ws as int) * ws);
    }
    while x < ws
        invariant
            config.valid(),
            is_generated_world(*registry, *heightmap, *config),
            ws == config.world_size,
            x <= ws,
            registry.chunks@.len() == (ws as int) * ws,
            r@.len() == x * ws,
            forall|k: int|
                0 <= k < r@.len() ==> is_world_mesh_entry(
                    (#[trigger] r@[k])@,
                    *registry,
                    *heightmap,
                    *config,
                    *store,
                    k,
                ),
        decreases ws - x,
    {
        let mut z: usize = 0;
        while z < ws
            invariant
                config.valid(),
                is_generated_world(*registry, *heightmap, *config),
                ws == config.world_size,
                x < ws,
                z <= ws,
                registry.chunks@.len() == (ws as int) * ws,
                r@.len() == x * ws + z,
                forall|k: int|
                    0 <= k < r@.len() ==> is_world_mesh_entry(
                        (#[trigger] r@[k])@,
                        *registry,
                        *heightmap,
                        *config,
                        *store,
                        k,
                    ),
            decreases ws - z,
        {
            proof {
                crate::heightmap::lemma_grid_index_bounds(x as int, z as int, ws as int);
                crate::heightmap::lemma_square_bounds(ws as int, MAX_WORLD_SIZE as int);
            }
            let k: usize = x * ws + z;
            let chunk = &registry.chunks[k];
            proof {
                lemma_world_encode_decode(x as int, z as int, ws as int);
                assert(is_built_chunk(*chunk, *heightmap, *config, x as i32, z as i32));
            }
            let halo = build_halo(registry, heightmap, config, x, z);
            let faces = mesh_chunk(chunk, &halo, store);
            let ghost r0 = r@;
            let ghost halo0 = halo;
            r.push(faces);
            proof {
                let j0 = r0.len() as int;
                assert(is_world_halo(
                    halo0,
                    *heightmap,
                    *config,
                    j0 / config.world_size as int,
                    j0 % config.world_size as int,
                ));
                assert((r@[j0])@ == crate::mesh::spec_mesh(
                    registry.chunks@[j0],
                    halo0,
                    *store,
                ));
                assert(is_world_mesh_entry(
                    (r@[j0])@,
                    *registry,
                    *heightmap,
                    *config,
                    *store,
                    j0,
                ));
                assert forall|j: int| 0 <= j < r@.len() implies is_world_mesh_entry(
                    (#[trigger] r@[j])@,
                    *registry,
                    *heightmap,
                    *config,
                    *store,
                    j,
                ) by {
                    if j < r0.len() {
                        assert(r@[j] == r0[j]);
                    } else {
                        assert(r@[j] == r@[j0]);
                    }
                }
            }
            z = z + 1;
        }
        proof {
            assert((x as int) * ws + ws == (x as int + 1) * ws) by (nonlinear_arith);
        }
        x = x + 1;
    }
    proof {
        assert((ws as int) * ws == registry.chunks@.len());
    }
    r
}

/// After generating a world of `world_size × world_size` chunks, the
/// registry holds exactly one entry for every grid coordinate `(x, 0, z)`
/// of the grid — and, by its well-formedness, no duplicate keys.
pub proof fn lemma_registry_covers_grid(
    reg: ChunkRegistry,
    hm: HeightmapField,
    cfg: WorldConfig,
    x: int,
    z: int,
)
    requires
        cfg.valid(),
        is_generated_world(reg, hm, cfg),
        0 <= x < cfg.world_size,
        0 <= z < cfg.world_size,
    ensures
        reg.spec_contains(ChunkPosition { x: x as i32, y: 0, z: z as i32 }),
{
    let ws = cfg.world_size as int;
    let k = x * ws + z;
    lemma_world_encode_decode(x, z, ws);
    crate::heightmap::lemma_grid_index_bounds(x, z, ws);
    assert(0 <= k < reg.chunks@.len());
    assert(is_built_chunk(reg.chunks@[k], hm, cfg, (k / ws) as i32, (k % ws) as i32));
    assert(reg.chunks@[k].position == (ChunkPosition { x: x as i32, y: 0, z: z as i32 }));
}

} // verus!
