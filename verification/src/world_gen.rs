pub mod consts;
pub mod draw_log;
pub mod erosion;
pub mod heightmap;
pub mod mesh_gen;

use vstd::prelude::*;

use crate::world::WorldSize;
use crate::world_gen::consts::CHUNK_SIZE;

verus! {

/// The size of a world in tiles, from its size in chunks.
pub fn tile_world_size(world_size: WorldSize) -> (r: WorldSize)
    requires
        world_size[0] * CHUNK_SIZE <= u32::MAX,
        world_size[1] * CHUNK_SIZE <= u32::MAX,
    ensures
        r[0] == world_size[0] * CHUNK_SIZE,
        r[1] == world_size[1] * CHUNK_SIZE,
{
    let mut r = world_size;
    r[0] = r[0] * CHUNK_SIZE;
    r[1] = r[1] * CHUNK_SIZE;
    r
}

} // verus!
