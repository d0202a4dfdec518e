pub mod chunk_tile_position;
