pub mod walls;
