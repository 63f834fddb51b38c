//! The terrain builder: the orchestration core that reads the heightmap and
//! classifies every voxel of a chunk. Each column's surface level is the
//! rounded image of its sample under the configured vertical mapping; cells
//! at or below the surface are solid — grass exactly at the surface, stone
//! below it — and cells above it are empty.

use vstd::prelude::*;

verus! {

use crate::WorldError;
use crate::block::{Block, BlockPositionInChunk, BlockType};
use crate::chunk::{Chunk, ChunkPosition, chunk_index, lemma_chunk_index_bounds};
use crate::config::WorldConfig;
use crate::heightmap::{HeightmapField, SAMPLE_ONE};

/// Half of `SAMPLE_ONE`: added before the fixed-point division so that the
/// division rounds to the nearest voxel level instead of truncating.
pub const HALF_SAMPLE: u32 = 32768;

/// The surface voxel level of a column whose heightmap sample is `sample`:
/// the sample, read as a scalar in `[0, 1]`, scaled by the vertical scale,
/// rounded to the nearest level, and shifted by the vertical offset.
pub open spec fn surface_level(cfg: WorldConfig, sample: u32) -> int {
    (sample * cfg.vertical_scale + HALF_SAMPLE) / (SAMPLE_ONE as int) + cfg.vertical_offset
}

/// Whether chunk coordinates `(cx, cz)` lie inside the extent the heightmap
/// covers: every column of the chunk has a sample.
pub open spec fn chunk_in_grid(hm: HeightmapField, cfg: WorldConfig, cx: int, cz: int) -> bool {
    &&& 0 <= cx
    &&& 0 <= cz
    &&& (cx + 1) * cfg.chunk_dim <= hm.size
    &&& (cz + 1) * cfg.chunk_dim <= hm.size
}

/// The voxel the builder stores at local cell `(lx, y, lz)` of chunk
/// `(cx, cz)`: solid up to and including the column's surface level, tagged
/// grass exactly at the surface and stone below it. Empty cells above the
/// surface are invisible and keep the default stone tag, which nothing
/// reads.
pub open spec fn spec_voxel(
    hm: HeightmapField,
    cfg: WorldConfig,
    cx: int,
    cz: int,
    lx: int,
    y: int,
    lz: int,
) -> Block {
    let h = surface_level(cfg, hm.sample_at(cx * cfg.chunk_dim + lx, cz * cfg.chunk_dim + lz));
    Block {
        position: BlockPositionInChunk { x: lx as u32, y: y as u32, z: lz as u32 },
        visible: y <= h,
        block_type: if y == h {
            BlockType::Grass
        } else {
            BlockType::Stone
        },
    }
}

/// What `build_chunk` promises of a chunk it returns for `(cx, cz)`: the
/// chunk sits at that grid position, has the configured extents, and every
/// cell holds exactly the voxel the classification rule calls for. Two
/// chunks built from the same inputs are therefore identical.
pub open spec fn is_built_chunk(
    c: Chunk,
    hm: HeightmapField,
    cfg: WorldConfig,
    cx: i32,
    cz: i32,
) -> bool {
    &&& chunk_in_grid(hm, cfg, cx as int, cz as int)
    &&& c.position == (ChunkPosition { x: cx, y: 0, z: cz })
    &&& c.dim == cfg.chunk_dim
    &&& c.height == cfg.world_height
    &&& c.wf()
    &&& forall|lx: int, y: int, lz: int|
        c.in_bounds(lx, y, lz) ==> #[trigger] c.block_at(lx, y, lz) == spec_voxel(
            hm,
            cfg,
            cx as int,
            cz as int,
            lx,
            y,
            lz,
        )
}

/// The surface level of a normalized sample stays inside the world's
/// vertical extent: the scaled sample rounds to at most the vertical scale,
/// and scale plus offset lie strictly below the world height.
pub proof fn lemma_surface_level_bounds(cfg: WorldConfig, sample: u32)
    requires
        cfg.valid(),
        sample <= SAMPLE_ONE,
    ensures
        0 <= surface_level(cfg, sample) < cfg.world_height,
{
    assert(0 <= (sample * cfg.vertical_scale + HALF_SAMPLE) / (SAMPLE_ONE as int)
        <= cfg.vertical_scale) by (nonlinear_arith)
        requires
            0 <= sample <= SAMPLE_ONE,
            0 <= cfg.vertical_scale,
            SAMPLE_ONE == 65536,
            HALF_SAMPLE == 32768,
    ;
}

/// A column of an in-grid chunk has its sample inside the heightmap: the
/// absolute column index stays below the field's edge length.
pub(crate) proof fn lemma_column_in_field(cx: int, lx: int, dim: int, size: int)
    by (nonlinear_arith)
    requires
        0 <= cx,
        0 <= lx < dim,
        (cx + 1) * dim <= size,
    ensures
        0 <= cx * dim + lx < size,
        cx * dim <= size,
{
}

/// The row-major encoding respects lexicographic order of `(lx, y, lz)`:
/// an earlier triple lands on a smaller index.
pub(crate) proof fn lemma_chunk_index_lex(
    dim: int,
    height: int,
    a: int,
    b: int,
    c: int,
    lx: int,
    y: int,
    lz: int,
)
    requires
        0 <= a < dim,
        0 <= b < height,
        0 <= c < dim,
        0 <= lx < dim,
        0 <= y < height,
        0 <= lz <= dim,
        a < lx || (a == lx && b < y) || (a == lx && b == y && c < lz),
    ensures
        chunk_index(dim, height, a, b, c) < chunk_index(dim, height, lx, y, lz),
{
    assert((a * height + b) * dim + c < (lx * height + y) * dim + lz) by (nonlinear_arith)
        requires
            0 <= a < dim,
            0 <= b < height,
            0 <= c < dim,
            0 <= lx < dim,
            0 <= y < height,
            0 <= lz <= dim,
            a < lx || (a == lx && b < y) || (a == lx && b == y && c < lz),
    ;
}

/// Lexicographic order on local coordinate triples, the order the builder
/// fills a chunk in.
spec fn lex_before(a: int, b: int, c: int, lx: int, y: int, lz: int) -> bool {
    ||| a < lx
    ||| (a == lx && b < y)
    ||| (a == lx && b == y && c < lz)
}

/// The builder's loop invariant: every cell lexicographically before
/// `(lx, y, lz)` already holds its classified voxel.
spec fn built_upto(
    blocks: Seq<Block>,
    hm: HeightmapField,
    cfg: WorldConfig,
    cx: int,
    cz: int,
    lx: int,
    y: int,
    lz: int,
) -> bool {
    forall|a: int, b: int, c: int|
        #![trigger chunk_index(cfg.chunk_dim as int, cfg.world_height as int, a, b, c)]
        (0 <= a < cfg.chunk_dim && 0 <= b < cfg.world_height && 0 <= c < cfg.chunk_dim
            && lex_before(a, b, c, lx, y, lz)) ==> blocks[chunk_index(
            cfg.chunk_dim as int,
            cfg.world_height as int,
            a,
            b,
            c,
        )] == spec_voxel(hm, cfg, cx, cz, a, b, c)
}

/// Builds the chunk at grid coordinates `(cx, cz)` from the heightmap:
/// classifies every column's voxels against its rounded surface level.
/// Fails with an invariant violation exactly when the coordinates fall
/// outside the extent the heightmap covers — such a mismatch between the
/// chunk grid and the field aborts generation instead of being clamped.
pub fn build_chunk(
    cx: i32,
    cz: i32,
    heightmap: &HeightmapField,
    config: &WorldConfig,
) -> (r: Result<Chunk, WorldError>)
    requires
        heightmap.wf(),
        config.valid(),
    ensures
        match r {
            Ok(c) => is_built_chunk(c, *heightmap, *config, cx, cz),
            Err(e) => {
                &&& e == WorldError::InvariantViolation
                &&& !chunk_in_grid(*heightmap, *config, cx as int, cz as int)
            },
        },
{
    if cx < 0 || cz < 0 {
        return Err(WorldError::InvariantViolation);
    }
    let dim: usize = config.chunk_dim;
    let height: usize = config.world_height;
    proof {
        assert((cx + 1) * dim <= 0x80000000 * 128 && (cz + 1) * dim <= 0x80000000 * 128)
            by (nonlinear_arith)
            requires
                0 <= cx < 0x80000000,
                0 <= cz < 0x80000000,
                0 <= dim <= 128,
        ;
    }
    if (cx as u64 + 1) * (dim as u64) > heightmap.size as u64 || (cz as u64 + 1) * (dim as u64)
        > heightmap.size as u64 {
        return Err(WorldError::InvariantViolation);
    }
    assert(chunk_in_grid(*heightmap, *config, cx as int, cz as int));

    let mut blocks: Vec<Block> = Vec::new();
    let mut lx: usize = 0;
    proof {
        assert((0 * (height as int)) * (dim as int) == 0) by (nonlinear_arith);
    }
    while lx < dim
        invariant
            heightmap.wf(),
            config.valid(),
            dim == config.chunk_dim,
            height == config.world_height,
            chunk_in_grid(*heightmap, *config, cx as int, cz as int),
            lx <= dim,
            blocks@.len() == (lx * height) * dim,
            built_upto(blocks@, *heightmap, *config, cx as int, cz as int, lx as int, 0, 0),
        decreases dim - lx,
    {
        let mut y: usize = 0;
        while y < height
            invariant
                heightmap.wf(),
                config.valid(),
                dim == config.chunk_dim,
                height == config.world_height,
                chunk_in_grid(*heightmap, *config, cx as int, cz as int),
                lx < dim,
                y <= height,
                blocks@.len() == (lx * height + y) * dim,
                built_upto(
                    blocks@,
                    *heightmap,
                    *config,
                    cx as int,
                    cz as int,
                    lx as int,
                    y as int,
                    0,
                ),
            decreases height - y,
        {
            let mut lz: usize = 0;
            while lz < dim
                invariant
                    heightmap.wf(),
                    config.valid(),
                    dim == config.chunk_dim,
                    height == config.world_height,
                    chunk_in_grid(*heightmap, *config, cx as int, cz as int),
                    lx < dim,
                    y < height,
                    lz <= dim,
                    blocks@.len() == (lx * height + y) * dim + lz,
                    built_upto(
                        blocks@,
                        *heightmap,
                        *config,
                        cx as int,
                        cz as int,
                        lx as int,
                        y as int,
                        lz as int,
                    ),
                decreases dim - lz,
            {
                proof {
                    lemma_column_in_field(
                        cx as int,
                        lx as int,
                        dim as int,
                        heightmap.size as int,
                    );
                    lemma_column_in_field(
                        cz as int,
                        lz as int,
                        dim as int,
                        heightmap.size as int,
                    );
                }
                let hx: usize = (cx as usize) * dim + lx;
                let hz: usize = (cz as usize) * dim + lz;
                let s: u32 = heightmap.sample(hx, hz);
                proof {
                    assert(s * config.vertical_scale <= 65536 * 4096) by (nonlinear_arith)
                        requires
                            0 <= s <= 65536,
                            0 <= config.vertical_scale <= 4096,
                    ;
                }
                let h: u64 = ((s as u64) * (config.vertical_scale as u64) + (HALF_SAMPLE as u64))
                    / (SAMPLE_ONE as u64) + (config.vertical_offset as u64);
                assert(h == surface_level(*config, s));
                let visible: bool = (y as u64) <= h;
                let block_type: BlockType = if (y as u64) == h {
                    BlockType::Grass
                } else {
                    BlockType::Stone
                };
                let voxel = Block {
                    position: BlockPositionInChunk { x: lx as u32, y: y as u32, z: lz as u32 },
                    visible,
                    block_type,
                };
                assert(voxel == spec_voxel(
                    *heightmap,
                    *config,
                    cx as int,
                    cz as int,
                    lx as int,
                    y as int,
                    lz as int,
                ));
                let ghost blocks0 = blocks@;
                blocks.push(voxel);
                proof {
                    let d = dim as int;
                    let hgt = height as int;
                    assert forall|a: int, b: int, c: int|
                        #![trigger chunk_index(config.chunk_dim as int, config.world_height as int, a, b, c)]
                        (0 <= a < config.chunk_dim && 0 <= b < config.world_height && 0 <= c
                            < config.chunk_dim && lex_before(
                            a,
                            b,
                            c,
                            lx as int,
                            y as int,
                            lz + 1,
                        )) implies blocks@[chunk_index(
                        config.chunk_dim as int,
                        config.world_height as int,
                        a,
                        b,
                        c,
                    )] == spec_voxel(*heightmap, *config, cx as int, cz as int, a, b, c) by {
                        let idx = chunk_index(d, hgt, a, b, c);
                        if a == lx && b == y && c == lz {
                            assert(idx == blocks0.len());
                            assert(blocks@[idx] == voxel);
                        } else {
                            lemma_chunk_index_lex(
                                d,
                                hgt,
                                a,
                                b,
                                c,
                                lx as int,
                                y as int,
                                lz as int,
                            );
                            lemma_chunk_index_bounds(d, hgt, a, b, c);
                            assert(idx < blocks0.len());
                            assert(blocks@[idx] == blocks0[idx]);
                        }
                    }
                }
                lz = lz + 1;
            }
            proof {
                assert((lx * height + y) * dim + dim == (lx * height + (y + 1)) * dim)
                    by (nonlinear_arith);
            }
            y = y + 1;
        }
        proof {
            assert((lx * height + height) * dim == ((lx + 1) * height) * dim) by (nonlinear_arith);
        }
        lx = lx + 1;
    }
    let chunk = Chunk { position: ChunkPosition { x: cx, y: 0, z: cz }, dim, height, blocks };
    proof {
        assert(chunk.blocks@.len() == chunk.dim * chunk.height * chunk.dim) by {
            assert((dim * height) * dim == dim * height * dim);
        }
        assert forall|a: int, b: int, c: int|
            chunk.in_bounds(a, b, c) implies #[trigger] chunk.block_at(a, b, c) == spec_voxel(
            *heightmap,
            *config,
            cx as int,
            cz as int,
            a,
            b,
            c,
        ) by {
            assert(chunk_index(config.chunk_dim as int, config.world_height as int, a, b, c)
                == chunk_index(chunk.dim as int, chunk.height as int, a, b, c));
        }
        assert(chunk.wf());
    }
    Ok(chunk)
}

/// Idempotence: building the chunk at the same coordinates from the same
/// heightmap and configuration twice gives chunks with identical voxel
/// contents.
pub proof fn lemma_build_chunk_idempotent(
    hm: HeightmapField,
    cfg: WorldConfig,
    cx: i32,
    cz: i32,
    c1: Chunk,
    c2: Chunk,
)
    requires
        is_built_chunk(c1, hm, cfg, cx, cz),
        is_built_chunk(c2, hm, cfg, cx, cz),
    ensures
        c1.position == c2.position,
        c1.dim == c2.dim,
        c1.height == c2.height,
        c1.blocks@ == c2.blocks@,
{
    let d = cfg.chunk_dim as int;
    let hgt = cfg.world_height as int;
    assert forall|j: int| 0 <= j < c1.blocks@.len() implies c1.blocks@[j] == c2.blocks@[j] by {
        lemma_chunk_index_decode(d, hgt, j);
        let a = j / (hgt * d);
        let b = (j % (hgt * d)) / d;
        let c = (j % (hgt * d)) % d;
        assert(c1.block_at(a, b, c) == spec_voxel(hm, cfg, cx as int, cz as int, a, b, c));
        assert(c2.block_at(a, b, c) == spec_voxel(hm, cfg, cx as int, cz as int, a, b, c));
    }
    assert(c1.blocks@ =~= c2.blocks@);
}

/// Column invariant: in a built chunk, the solid cells of any local column
/// `(lx, lz)` form the contiguous range `[0, h]` for the column's surface
/// level `h`; the cell at `h` is the column's only grass voxel, and every
/// cell below it is stone.
pub proof fn lemma_column_invariant(
    hm: HeightmapField,
    cfg: WorldConfig,
    cx: i32,
    cz: i32,
    c: Chunk,
    lx: int,
    lz: int,
)
    requires
        hm.wf(),
        cfg.valid(),
        is_built_chunk(c, hm, cfg, cx, cz),
        0 <= lx < cfg.chunk_dim,
        0 <= lz < cfg.chunk_dim,
    ensures
        ({
            let h = surface_level(
                cfg,
                hm.sample_at(cx * cfg.chunk_dim + lx, cz * cfg.chunk_dim + lz),
            );
            &&& 0 <= h < cfg.world_height
            &&& forall|y: int|
                0 <= y < cfg.world_height ==> (#[trigger] c.solid_at(lx, y, lz) <==> y <= h)
            &&& c.type_at(lx, h, lz) == BlockType::Grass
            &&& forall|y: int|
                0 <= y < cfg.world_height && y != h ==> #[trigger] c.type_at(lx, y, lz)
                    != BlockType::Grass
            &&& forall|y: int| 0 <= y < h ==> #[trigger] c.type_at(lx, y, lz) == BlockType::Stone
        }),
{
    let d = cfg.chunk_dim as int;
    lemma_column_in_field(cx as int, lx, d, hm.size as int);
    lemma_column_in_field(cz as int, lz, d, hm.size as int);
    crate::heightmap::lemma_sample_range(hm, cx * d + lx, cz * d + lz);
    let sample = hm.sample_at(cx * d + lx, cz * d + lz);
    lemma_surface_level_bounds(cfg, sample);
    let h = surface_level(cfg, sample);
    assert forall|y: int| 0 <= y < cfg.world_height implies (#[trigger] c.solid_at(lx, y, lz) <==> y
        <= h) && (c.type_at(lx, y, lz) == BlockType::Grass <==> y == h) && (y != h ==> c.type_at(
        lx,
        y,
        lz,
    ) == BlockType::Stone) by {
        assert(c.block_at(lx, y, lz) == spec_voxel(hm, cfg, cx as int, cz as int, lx, y, lz));
    }
    assert(c.block_at(lx, h, lz) == spec_voxel(hm, cfg, cx as int, cz as int, lx, h, lz));
}

/// Every index of the dense array decodes to an in-range coordinate triple
/// that encodes back to it: the row-major mapping is a bijection.
pub(crate) proof fn lemma_chunk_index_decode(dim: int, height: int, j: int)
    requires
        1 <= dim,
        1 <= height,
        0 <= j < dim * height * dim,
    ensures
        ({
            let a = j / (height * dim);
            let b = (j % (height * dim)) / dim;
            let c = (j % (height * dim)) % dim;
            0 <= a < dim && 0 <= b < height && 0 <= c < dim && chunk_index(dim, height, a, b, c)
                == j
        }),
{
    let a = j / (height * dim);
    let r1 = j % (height * dim);
    let b = r1 / dim;
    let c = r1 % dim;
    assert(0 <= a < dim && 0 <= r1 < height * dim && j == a * (height * dim) + r1)
        by (nonlinear_arith)
        requires
            1 <= dim,
            1 <= height,
            0 <= j < dim * height * dim,
            a == j / (height * dim),
            r1 == j % (height * dim),
    ;
    assert(0 <= b < height && 0 <= c < dim && r1 == b * dim + c) by (nonlinear_arith)
        requires
            1 <= dim,
            1 <= height,
            0 <= r1 < height * dim,
            b == r1 / dim,
            c == r1 % dim,
    ;
    assert((a * height + b) * dim + c == a * (height * dim) + (b * dim + c)) by (nonlinear_arith);
}

} // verus!
