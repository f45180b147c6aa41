pub mod food;
pub mod grid;
pub mod occupancy;
pub mod rng;
pub mod snake;
