//! The world's configuration: the chunk grid, the vertical extent, and the
//! scale and offset that map a normalized heightmap sample to a voxel level.
//! The scale and offset are parameters, not constants: no single value is
//! authoritative for them, so callers choose.

use vstd::prelude::*;

verus! {

use crate::WorldError;

/// Largest edge length of a chunk, in voxels.
pub const MAX_CHUNK_DIM: usize = 128;

/// Largest world extent, in chunks per horizontal axis.
pub const MAX_WORLD_SIZE: usize = 128;

/// Largest number of vertical voxel levels.
pub const MAX_WORLD_HEIGHT: usize = 4096;

/// Configuration of one bounded, eagerly generated world.
#[derive(Clone, Copy, Debug, PartialEq, Eq, Structural)]
pub struct WorldConfig {
    /// Voxels per horizontal edge of a chunk.
    pub chunk_dim: usize,
    /// Chunks per horizontal axis of the world grid.
    pub world_size: usize,
    /// Vertical voxel levels; every column's surface lies strictly below it.
    pub world_height: usize,
    /// Multiplier from a normalized sample to a voxel level.
    pub vertical_scale: u32,
    /// Voxel level a zero sample maps to.
    pub vertical_offset: u32,
}

impl WorldConfig {
    /// A valid configuration: positive bounded extents, and a height mapping
    /// that cannot reach the top of the world, so that every column keeps a
    /// surface voxel inside `[0, world_height)`.
    pub open spec fn valid(self) -> bool {
        &&& 1 <= self.chunk_dim <= MAX_CHUNK_DIM
        &&& 1 <= self.world_size <= MAX_WORLD_SIZE
        &&& 1 <= self.world_height <= MAX_WORLD_HEIGHT
        &&& self.vertical_scale + self.vertical_offset < self.world_height
    }

    /// The heightmap edge length this configuration calls for: one sample
    /// per world column.
    pub open spec fn spec_field_size(self) -> int {
        self.chunk_dim * self.world_size
    }

    /// Validates and builds a configuration. Fails with a configuration
    /// error exactly when some extent is zero or over its cap, or the
    /// vertical mapping could reach the top of the world.
    pub fn new(
        chunk_dim: usize,
        world_size: usize,
        world_height: usize,
        vertical_scale: u32,
        vertical_offset: u32,
    ) -> (r: Result<WorldConfig, WorldError>)
        ensures
            ({
                let c = WorldConfig {
                    chunk_dim,
                    world_size,
                    world_height,
                    vertical_scale,
                    vertical_offset,
                };
                match r {
                    Ok(cfg) => cfg == c && c.valid(),
                    Err(e) => e == WorldError::ConfigurationError && !c.valid(),
                }
            }),
    {
        if chunk_dim < 1 || chunk_dim > MAX_CHUNK_DIM {
            return Err(WorldError::ConfigurationError);
        }
        if world_size < 1 || world_size > MAX_WORLD_SIZE {
            return Err(WorldError::ConfigurationError);
        }
        if world_height < 1 || world_height > MAX_WORLD_HEIGHT {
            return Err(WorldError::ConfigurationError);
        }
        if vertical_scale as u64 + vertical_offset as u64 >= world_height as u64 {
            return Err(WorldError::ConfigurationError);
        }
        Ok(WorldConfig { chunk_dim, world_size, world_height, vertical_scale, vertical_offset })
    }

    /// The heightmap edge length, computed: `chunk_dim * world_size`.
    pub fn field_size(&self) -> (n: usize)
        requires
            self.valid(),
        ensures
            n == self.spec_field_size(),
            1 <= n <= MAX_CHUNK_DIM * MAX_WORLD_SIZE,
    {
        proof {
            assert(1 <= self.chunk_dim * self.world_size <= MAX_CHUNK_DIM * MAX_WORLD_SIZE)
                by (nonlinear_arith)
                requires
                    1 <= self.chunk_dim <= MAX_CHUNK_DIM,
                    1 <= self.world_size <= MAX_WORLD_SIZE,
            ;
        }
        self.chunk_dim * self.world_size
    }
}

} // verus!
