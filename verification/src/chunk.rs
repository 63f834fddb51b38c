//! Chunks and the chunk registry. A chunk is a fixed-size cuboid region of
//! the voxel world — the unit of storage and meshing — holding a dense array
//! of voxels in row-major order. The registry is a sparse mapping from
//! chunk-grid coordinates to chunks with unique keys.

use vstd::prelude::*;

verus! {

use crate::block::{Block, BlockPositionInChunk, BlockType};
use crate::config::{MAX_CHUNK_DIM, MAX_WORLD_HEIGHT};

/// A chunk-grid coordinate. The vertical component is always zero in this
/// design: chunking is horizontal only.
#[derive(Clone, Copy, Debug, PartialEq, Eq, Hash, Structural)]
pub struct ChunkPosition {
    pub x: i32,
    pub y: i32,
    pub z: i32,
}

/// The row-major index of local voxel coordinates `(lx, y, lz)` in a chunk
/// of horizontal edge `dim` and vertical extent `height`.
pub open spec fn chunk_index(dim: int, height: int, lx: int, y: int, lz: int) -> int {
    (lx * height + y) * dim + lz
}

/// Bounds for the row-major encoding: an in-range coordinate triple lands
/// strictly inside the dense array, and the intermediate products stay small
/// enough for index arithmetic never to overflow.
pub(crate) proof fn lemma_chunk_index_bounds(dim: int, height: int, lx: int, y: int, lz: int)
    requires
        0 <= lx < dim,
        0 <= y < height,
        0 <= lz < dim,
        dim <= MAX_CHUNK_DIM,
        height <= MAX_WORLD_HEIGHT,
    ensures
        0 <= chunk_index(dim, height, lx, y, lz) < dim * height * dim,
        0 <= lx * height + y < dim * height,
        dim * height <= MAX_CHUNK_DIM * MAX_WORLD_HEIGHT,
        dim * height * dim <= MAX_CHUNK_DIM * MAX_WORLD_HEIGHT * MAX_CHUNK_DIM,
{
    assert((0 <= (lx * height + y) * dim + lz < dim * height * dim) && (0 <= lx * height + y < dim
        * height) && (dim * height <= MAX_CHUNK_DIM * MAX_WORLD_HEIGHT) && (dim * height * dim
        <= MAX_CHUNK_DIM * MAX_WORLD_HEIGHT * MAX_CHUNK_DIM)) by (nonlinear_arith)
        requires
            0 <= lx < dim,
            0 <= y < height,
            0 <= lz < dim,
            dim <= MAX_CHUNK_DIM,
            height <= MAX_WORLD_HEIGHT,
    ;
}

/// A chunk: its grid position, its extents, and a dense row-major array of
/// voxels, one per cell. A cell's `visible` flag is true exactly when the
/// cell is solid; empty cells carry the default stone tag, which nothing
/// reads.
#[derive(Debug)]
pub struct Chunk {
    pub position: ChunkPosition,
    pub dim: usize,
    pub height: usize,
    pub blocks: Vec<Block>,
}

impl Chunk {
    /// Well-formedness: bounded positive extents, one voxel per cell, and
    /// the dense array's indices mapping bijectively to local coordinates —
    /// the voxel stored at the index of `(lx, y, lz)` carries exactly those
    /// coordinates.
    pub open spec fn wf(self) -> bool {
        &&& 1 <= self.dim <= MAX_CHUNK_DIM
        &&& 1 <= self.height <= MAX_WORLD_HEIGHT
        &&& self.blocks@.len() == self.dim * self.height * self.dim
        &&& forall|lx: int, y: int, lz: int|
            self.in_bounds(lx, y, lz) ==> #[trigger] self.block_at(lx, y, lz).position
                == (BlockPositionInChunk { x: lx as u32, y: y as u32, z: lz as u32 })
    }

    /// Whether local coordinates lie inside the chunk.
    pub open spec fn in_bounds(self, lx: int, y: int, lz: int) -> bool {
        &&& 0 <= lx < self.dim
        &&& 0 <= y < self.height
        &&& 0 <= lz < self.dim
    }

    /// The voxel stored for local coordinates `(lx, y, lz)`.
    pub open spec fn block_at(self, lx: int, y: int, lz: int) -> Block {
        self.blocks@[chunk_index(self.dim as int, self.height as int, lx, y, lz)]
    }

    /// Whether the cell at `(lx, y, lz)` is solid.
    pub open spec fn solid_at(self, lx: int, y: int, lz: int) -> bool {
        self.block_at(lx, y, lz).visible
    }

    /// The block type of the cell at `(lx, y, lz)`.
    pub open spec fn type_at(self, lx: int, y: int, lz: int) -> BlockType {
        self.block_at(lx, y, lz).block_type
    }

    /// Whether the cell at in-bounds local coordinates is solid.
    pub fn solid(&self, x: usize, y: usize, z: usize) -> (r: bool)
        requires
            self.wf(),
            self.in_bounds(x as int, y as int, z as int),
        ensures
            r == self.solid_at(x as int, y as int, z as int),
    {
        proof {
            lemma_chunk_index_bounds(
                self.dim as int,
                self.height as int,
                x as int,
                y as int,
                z as int,
            );
        }
        self.blocks[(x * self.height + y) * self.dim + z].visible
    }

    /// Reads the voxel at local coordinates, or nothing when they lie
    /// outside the chunk.
    pub fn get_block(&self, x: usize, y: usize, z: usize) -> (r: Option<&Block>)
        requires
            self.wf(),
        ensures
            match r {
                Some(b) => self.in_bounds(x as int, y as int, z as int) && *b == self.block_at(
                    x as int,
                    y as int,
                    z as int,
                ),
                None => !self.in_bounds(x as int, y as int, z as int),
            },
    {
        if x < self.dim && y < self.height && z < self.dim {
            proof {
                lemma_chunk_index_bounds(
                    self.dim as int,
                    self.height as int,
                    x as int,
                    y as int,
                    z as int,
                );
            }
            Some(&self.blocks[(x * self.height + y) * self.dim + z])
        } else {
            None
        }
    }
}

/// The chunk store: a mapping from chunk-grid coordinates to chunks, keys
/// unique, insertion order irrelevant. Owns all chunks exclusively;
/// populated once at world-generation time and read-only afterwards.
#[derive(Debug)]
pub struct ChunkRegistry {
    pub chunks: Vec<Chunk>,
}

impl ChunkRegistry {
    /// Well-formedness: no two entries share a position.
    pub open spec fn wf(self) -> bool {
        forall|i: int, j: int|
            #![trigger self.chunks@[i], self.chunks@[j]]
            0 <= i < j < self.chunks@.len() ==> self.chunks@[i].position
                != self.chunks@[j].position
    }

    /// Whether some entry carries the given position.
    pub open spec fn spec_contains(self, position: ChunkPosition) -> bool {
        exists|i: int| 0 <= i < self.chunks@.len() && self.chunks@[i].position == position
    }

    /// Builds an empty registry.
    pub fn new() -> (r: ChunkRegistry)
        ensures
            r.chunks@.len() == 0,
            r.wf(),
    {
        ChunkRegistry { chunks: Vec::new() }
    }

    /// The number of chunks stored.
    pub fn len(&self) -> (n: usize)
        ensures
            n == self.chunks@.len(),
    {
        self.chunks.len()
    }

    /// Inserts a chunk under its position: replaces the entry that carries
    /// the same position, or appends when there is none. Keys stay unique.
    pub fn insert(&mut self, chunk: Chunk)
        requires
            old(self).wf(),
        ensures
            final(self).wf(),
            final(self).spec_contains(chunk.position),
            !old(self).spec_contains(chunk.position) ==> final(self).chunks@ == old(
                self,
            ).chunks@.push(chunk),
            old(self).spec_contains(chunk.position) ==> exists|i: int|
                0 <= i < old(self).chunks@.len() && old(self).chunks@[i].position == chunk.position
                    && final(self).chunks@ == old(self).chunks@.update(i, chunk),
    {
        let n: usize = self.chunks.len();
        let mut i: usize = 0;
        while i < n
            invariant
                i <= n,
                n == self.chunks@.len(),
                *self == *old(self),
                old(self).wf(),
                forall|j: int| 0 <= j < i ==> #[trigger] self.chunks@[j].position != chunk.position,
            decreases n - i,
        {
            if self.chunks[i].position.x == chunk.position.x && self.chunks[i].position.y
                == chunk.position.y && self.chunks[i].position.z == chunk.position.z {
                assert(self.chunks@[i as int].position == chunk.position);
                self.chunks.set(i, chunk);
                proof {
                    assert(old(self).spec_contains(chunk.position));
                    assert(self.chunks@ == old(self).chunks@.update(i as int, chunk));
                    assert(self.chunks@[i as int].position == chunk.position);
                    assert forall|p: int, q: int|
                        #![trigger self.chunks@[p], self.chunks@[q]]
                        0 <= p < q < self.chunks@.len() implies self.chunks@[p].position
                        != self.chunks@[q].position by {
                        assert(old(self).chunks@[p] == self.chunks@[p] || p == i);
                        assert(old(self).chunks@[q] == self.chunks@[q] || q == i);
                        assert(old(self).chunks@[p].position != old(self).chunks@[q].position);
                    }
                }
                return ;
            }
            i = i + 1;
        }
        assert(!old(self).spec_contains(chunk.position));
        self.chunks.push(chunk);
        proof {
            assert forall|p: int, q: int|
                #![trigger self.chunks@[p], self.chunks@[q]]
                0 <= p < q < self.chunks@.len() implies self.chunks@[p].position
                != self.chunks@[q].position by {
                if q < self.chunks@.len() - 1 {
                    assert(old(self).chunks@[p].position != old(self).chunks@[q].position);
                } else {
                    assert(self.chunks@[q] == chunk);
                    assert(old(self).chunks@[p].position != chunk.position);
                }
            }
            assert(self.chunks@[self.chunks@.len() - 1].position == chunk.position);
        }
    }

    /// Looks the chunk under a position up.
    pub fn get(&self, position: ChunkPosition) -> (r: Option<&Chunk>)
        requires
            self.wf(),
        ensures
            match r {
                Some(c) => self.spec_contains(position) && c.position == position && exists|i: int|
                    0 <= i < self.chunks@.len() && *c == #[trigger] self.chunks@[i],
                None => !self.spec_contains(position),
            },
    {
        let n: usize = self.chunks.len();
        let mut i: usize = 0;
        while i < n
            invariant
                i <= n,
                n == self.chunks@.len(),
                forall|j: int| 0 <= j < i ==> #[trigger] self.chunks@[j].position != position,
            decreases n - i,
        {
            if self.chunks[i].position.x == position.x && self.chunks[i].position.y == position.y
                && self.chunks[i].position.z == position.z {
                assert(self.chunks@[i as int].position == position);
                return Some(&self.chunks[i]);
            }
            i = i + 1;
        }
        None
    }
}

} // verus!
