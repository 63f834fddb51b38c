//! The closed set of block types, their display colors, and the voxel cell
//! itself: the leaf data model everything else builds on.

use vstd::prelude::*;

verus! {

use crate::WorldError;

/// The closed enumeration of block kinds. `Mixed` is a placeholder for
/// blended materials and cannot be instantiated as a concrete voxel.
#[derive(Clone, Copy, Debug, PartialEq, Eq, Structural)]
pub enum BlockType {
    Stone,
    Soil,
    Grass,
    Mixed,
}

/// An RGBA color with 8-bit channels, the display attribute a block type
/// resolves to.
#[derive(Clone, Copy, Debug, PartialEq, Eq, Structural)]
pub struct Color {
    pub r: u8,
    pub g: u8,
    pub b: u8,
    pub a: u8,
}

impl Color {
    /// Builds an opaque color from its three channels.
    pub fn opaque(r: u8, g: u8, b: u8) -> (c: Color)
        ensures
            c == (Color { r, g, b, a: 255 }),
    {
        Color { r, g, b, a: 255 }
    }
}

/// The fixed palette: the display color of each block type. Built once at
/// startup and read-only afterwards. One entry per variant of the closed
/// enumeration — the struct has exactly one field per block type, so an
/// incomplete registry cannot be built, and lookups are total.
#[derive(Clone, Copy, Debug, PartialEq, Eq, Structural)]
pub struct BlockMaterialStore {
    pub stone: Color,
    pub soil: Color,
    pub grass: Color,
    pub mixed: Color,
}

impl BlockMaterialStore {
    /// The color the store maps a block type to, as an exhaustive match:
    /// adding a block type without extending the registry fails to compile.
    pub open spec fn spec_color(self, block_type: BlockType) -> Color {
        match block_type {
            BlockType::Stone => self.stone,
            BlockType::Soil => self.soil,
            BlockType::Grass => self.grass,
            BlockType::Mixed => self.mixed,
        }
    }

    /// Builds the registry from the fixed palette: dark gray stone, maroon
    /// soil, green grass, and a gold placeholder for the blended type that
    /// cannot be instantiated as a voxel.
    pub fn new() -> (store: BlockMaterialStore)
        ensures
            store.stone == (Color { r: 64, g: 64, b: 64, a: 255 }),
            store.soil == (Color { r: 128, g: 0, b: 0, a: 255 }),
            store.grass == (Color { r: 0, g: 128, b: 0, a: 255 }),
            store.mixed == (Color { r: 255, g: 215, b: 0, a: 255 }),
    {
        BlockMaterialStore {
            stone: Color::opaque(64, 64, 64),
            soil: Color::opaque(128, 0, 0),
            grass: Color::opaque(0, 128, 0),
            mixed: Color::opaque(255, 215, 0),
        }
    }

    /// Looks a block type's color up. The enumeration is closed and the
    /// registry is total over it, so this never fails.
    pub fn get_material(&self, block_type: BlockType) -> (r: Option<Color>)
        ensures
            r == Some(self.spec_color(block_type)),
    {
        Some(self.get_color(block_type))
    }

    /// The color of a block type, as a total function over the closed set.
    pub fn get_color(&self, block_type: BlockType) -> (c: Color)
        ensures
            c == self.spec_color(block_type),
    {
        match block_type {
            BlockType::Stone => self.stone,
            BlockType::Soil => self.soil,
            BlockType::Grass => self.grass,
            BlockType::Mixed => self.mixed,
        }
    }
}

/// A voxel's position inside its chunk, in local grid coordinates.
#[derive(Clone, Copy, Debug, PartialEq, Eq, Structural)]
pub struct BlockPositionInChunk {
    pub x: u32,
    pub y: u32,
    pub z: u32,
}

/// One unit-cube cell of the world. Voxels exist only as elements of a
/// chunk's dense array: `visible` is true exactly for the solid cells, and
/// the array position of a voxel encodes the same coordinates as its
/// `position` field.
#[derive(Clone, Copy, Debug, PartialEq, Eq, Structural)]
pub struct Block {
    pub position: BlockPositionInChunk,
    pub visible: bool,
    pub block_type: BlockType,
}

impl Block {
    /// Creates a solid voxel of the given type at the given local position.
    /// The blended placeholder type is explicitly unimplemented: asking for
    /// it is reported to the caller, never silently substituted.
    pub fn create(block_type: BlockType, position: BlockPositionInChunk) -> (r: Result<
        Block,
        WorldError,
    >)
        ensures
            match r {
                Ok(b) => {
                    &&& block_type != BlockType::Mixed
                    &&& b == (Block { position, visible: true, block_type })
                },
                Err(e) => {
                    &&& block_type == BlockType::Mixed
                    &&& e == WorldError::UnimplementedBlockType
                },
            },
    {
        match block_type {
            BlockType::Mixed => Err(WorldError::UnimplementedBlockType),
            _ => Ok(Block { position, visible: true, block_type }),
        }
    }
}

} // verus!
