//! World and chunk dimensions, and the voxel cell type.

use vstd::prelude::*;

verus! {

/// Edge length of a cubic chunk, in voxels.
pub const CHUNK_SIZE: i32 = 32;

/// Number of voxels in one horizontal slice of a chunk.
pub const CHUNK_AREA: i32 = CHUNK_SIZE * CHUNK_SIZE;

/// Number of voxels in a whole chunk.
pub const CHUNK_VOL: i32 = CHUNK_AREA * CHUNK_SIZE;

/// Chebyshev radius, in chunks, of the box of chunks kept meshed around the
/// observer.
pub const RENDER_DISTANCE: i32 = 2;

/// Largest magnitude of a chunk coordinate the world accepts, so that every
/// world-space voxel coordinate fits an `i32` with room to spare.
pub const MAX_CHUNK_COORD: i32 = 1048576;

/// Largest magnitude of a terrain height the generator accepts.
pub const MAX_HEIGHT: i32 = 16777216;

/// One typed cell of a chunk's grid. `EMPTY` is the universal "no geometry"
/// sentinel; `WATER` counts as solid for terrain purposes but is meshed in a
/// separate single-sided pass; every other variant is an opaque solid.
#[derive(Clone, Copy, PartialEq, Eq, Structural, Debug)]
pub enum VOXELS {
    EMPTY,
    SAND,
    DIRT,
    GRASS,
    COBBLESTONE,
    SNOW,
    WOOD,
    WATER,
    LEAVES,
}

/// A fixed table of sixteen pseudo-random small integers, the seed source
/// for deterministic decoration placement. Identical across runs.
pub open spec fn spec_hash_entry(i: u64) -> u64 {
    let j = i % 16;
    if j == 0 {
        2u64
    } else if j == 1 {
        5u64
    } else if j == 2 {
        0u64
    } else if j == 3 {
        7u64
    } else if j == 4 {
        3u64
    } else if j == 5 {
        1u64
    } else if j == 6 {
        6u64
    } else if j == 7 {
        4u64
    } else if j == 8 {
        9u64
    } else if j == 9 {
        8u64
    } else if j == 10 {
        3u64
    } else if j == 11 {
        0u64
    } else if j == 12 {
        5u64
    } else if j == 13 {
        2u64
    } else if j == 14 {
        7u64
    } else {
        1u64
    }
}

/// Looks up the fixed pseudo-random table.
pub fn hash_entry(i: u64) -> (r: u64)
    ensures
        r == spec_hash_entry(i),
{
    let j = i % 16;
    if j == 0 {
        2
    } else if j == 1 {
        5
    } else if j == 2 {
        0
    } else if j == 3 {
        7
    } else if j == 4 {
        3
    } else if j == 5 {
        1
    } else if j == 6 {
        6
    } else if j == 7 {
        4
    } else if j == 8 {
        9
    } else if j == 9 {
        8
    } else if j == 10 {
        3
    } else if j == 11 {
        0
    } else if j == 12 {
        5
    } else if j == 13 {
        2
    } else if j == 14 {
        7
    } else {
        1
    }
}

/// Which table slot a world-space `(x, z)` column reads: a fixed linear
/// combination of the coordinates, offset to stay non-negative.
pub open spec fn spec_hash_slot(x: int, z: int) -> int {
    (x * 3 + z * 17 + 0x100000000) % 16
}

/// Whether the fixed table plants a decoration seed at world column
/// `(x, z)`: a pure, deterministic function of position.
pub open spec fn spec_seed_at(x: int, z: int) -> bool {
    spec_hash_entry(spec_hash_slot(x, z) as u64) < 1
}

/// Evaluates the deterministic seed predicate of a world column.
pub fn seed_at(x: i32, z: i32) -> (r: bool)
    requires
        -0x8000000 <= x <= 0x8000000,
        -0x8000000 <= z <= 0x8000000,
    ensures
        r == spec_seed_at(x as int, z as int),
{
    let t: i64 = x as i64 * 3 + z as i64 * 17 + 0x100000000;
    let slot = (t as u64) % 16;
    assert(slot == spec_hash_slot(x as int, z as int));
    hash_entry(slot) < 1
}

impl VOXELS {
    /// Numeric id packed into the low 4 bits of a mesh vertex.
    pub fn id(&self) -> (r: u32)
        ensures
            r == self.spec_id(),
    {
        match self {
            VOXELS::EMPTY => 0,
            VOXELS::SAND => 1,
            VOXELS::DIRT => 2,
            VOXELS::GRASS => 3,
            VOXELS::COBBLESTONE => 4,
            VOXELS::SNOW => 5,
            VOXELS::WOOD => 6,
            VOXELS::WATER => 7,
            VOXELS::LEAVES => 8,
        }
    }

    pub open spec fn spec_id(self) -> u32 {
        match self {
            VOXELS::EMPTY => 0,
            VOXELS::SAND => 1,
            VOXELS::DIRT => 2,
            VOXELS::GRASS => 3,
            VOXELS::COBBLESTONE => 4,
            VOXELS::SNOW => 5,
            VOXELS::WOOD => 6,
            VOXELS::WATER => 7,
            VOXELS::LEAVES => 8,
        }
    }

    /// True of every voxel that occupies its cell, water included.
    pub open spec fn spec_is_solid(self) -> bool {
        self != VOXELS::EMPTY
    }

    /// True of the voxels meshed by the opaque pass: solid and not water.
    pub open spec fn spec_is_opaque(self) -> bool {
        self != VOXELS::EMPTY && self != VOXELS::WATER
    }

    pub fn is_opaque(&self) -> (r: bool)
        ensures
            r == self.spec_is_opaque(),
    {
        *self != VOXELS::EMPTY && *self != VOXELS::WATER
    }
}

} // verus!
