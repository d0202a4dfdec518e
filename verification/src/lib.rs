pub mod asset_builder;
pub mod chunk;
pub mod math_utils;
pub mod mesh_generator;
pub mod utils;
pub mod world;
pub mod world_gen;
