//! A bounded, eagerly generated voxel world: a deterministic heightmap drives
//! per-chunk block classification, and a face-culling mesher turns the dense
//! block grid into a minimal list of exposed faces.

use vstd::prelude::*;

pub mod block;
pub mod chunk;
pub mod config;
pub mod heightmap;
pub mod mesh;
pub mod terrain;
pub mod world;

verus! {

/// The error taxonomy of the world pipeline.
///
/// Everything here is pure computation over in-memory data, so every failure
/// is deterministic: it repeats on the same inputs and there is nothing to
/// retry.
#[derive(Clone, Copy, Debug, PartialEq, Eq, Structural)]
pub enum WorldError {
    /// An invalid size, dimension or scale was handed to a constructor.
    /// Fatal at startup; reported to the caller.
    ConfigurationError,
    /// Coordinate arithmetic or indexing is inconsistent with the generated
    /// heightmap's extent. Fatal: chunk generation aborts rather than
    /// producing corrupt geometry.
    InvariantViolation,
    /// An attempt to instantiate the placeholder block type as a concrete
    /// voxel. Recovered locally by the caller; never silent.
    UnimplementedBlockType,
}

} // verus!
