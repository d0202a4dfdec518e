pub mod buildings;
pub mod game_time;
pub mod heightmap;
pub mod resources;
pub mod road;
pub mod tile_set;
pub mod tools;
pub mod vehicles;

use vstd::prelude::*;

verus! {

/// Size of the world in chunks along each axis.
pub type WorldSize = [u32; 2];

} // verus!
