//! World-data core of a voxel sandbox: paletted chunk storage and a
//! deterministic procedural terrain generator.

use vstd::prelude::*;

pub mod math;
pub mod registry;
pub mod chunk;
pub mod generation;

verus! {

/// Unique identifier for block types.
pub type BlockId = u16;

/// Air block ID constant: always resolves to the Air kind.
pub const AIR_BLOCK: BlockId = 0;

/// Built-in stone block id.
pub const STONE_BLOCK: BlockId = 1;

/// Built-in dirt block id.
pub const DIRT_BLOCK: BlockId = 2;

/// Built-in grass block id.
pub const GRASS_BLOCK: BlockId = 3;

/// Built-in wood block id.
pub const WOOD_BLOCK: BlockId = 4;

/// Basic classification of block behavior.
#[derive(Debug, Clone, Copy, PartialEq, Eq, Hash, Structural)]
pub enum BlockKind {
    Air,
    Solid,
}

impl BlockKind {
    pub fn is_solid(self) -> (r: bool)
        ensures
            r == (self == BlockKind::Solid),
    {
        matches!(self, BlockKind::Solid)
    }

    pub fn is_air(self) -> (r: bool)
        ensures
            r == (self == BlockKind::Air),
    {
        matches!(self, BlockKind::Air)
    }
}

} // verus!
