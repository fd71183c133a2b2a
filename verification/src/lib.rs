pub mod driver;
pub mod explosion;
pub mod firework;
pub mod fixed;
pub mod particle;
pub mod rng;
pub mod types;
