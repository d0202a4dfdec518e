pub mod direction;
pub mod math;
pub mod vector;
