use vstd::prelude::*;

verus! {

/// Number of tiles along each side of a chunk.
pub const CHUNK_SIZE: u32 = 128;
/// Number of height samples along each side of a chunk: one more than its tiles.
pub const HEIGHTMAP_CHUNK_SIZE: u32 = CHUNK_SIZE + 1;
/// Number of chunks along each side of the generated world.
pub const CHUNK_WORLD_SIZE: [u32; 2] = [16u32, 16u32];
/// Number of tiles along each side of the generated world.
pub const TILE_WORLD_SIZE: [u32; 2] = [2048u32, 2048u32];
pub const MAX_DROPLET_SIZE: u32 = 12;
pub const MIN_DROPLET_SIZE: u32 = 2;
pub const EROSION_WORKGROUP_SIZE: u64 = 64;
pub const EROSION_DISPATCH_SIZE: u64 = 16;
pub const MAX_EROSION_STEPS: u64 = 500;
/// Number of levels of detail of the terrain mesh.
pub const LOD_LEVELS: u32 = 5;

} // verus!
