//! A chunked voxel world core: a fixed-size voxel grid per chunk, neighbor
//! clusters for seamless cross-chunk queries, bitwise plane-sweep face
//! visibility, greedy quad merging, packed 32-bit vertices, and the chunk
//! lifecycle state machine that drives terrain generation, decoration and
//! remeshing.

use vstd::prelude::*;

pub mod chunk;
pub mod laws;
pub mod mesh;
pub mod renderer;
pub mod settings;
pub mod vertex;
pub mod world;

pub use chunk::Chunk;
pub use chunk::ENTITIES;
pub use world::ChunkCluster;
pub use world::Face;
pub use world::World;
pub use chunk::ChunkMeshData;
pub use chunk::ChunkStatus;
pub use settings::CHUNK_SIZE;
pub use settings::CHUNK_AREA;
pub use settings::CHUNK_VOL;
pub use settings::RENDER_DISTANCE;
pub use settings::VOXELS;

verus! {

} // verus!
