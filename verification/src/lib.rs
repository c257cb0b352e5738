//! Simulation core of a first-person voxel world: terrain, collision and
//! player movement over exact fixed-point arithmetic.

pub mod height;
pub mod keys;
pub mod mode;
pub mod movement;
pub mod options;
pub mod physics;
pub mod settings;
pub mod steering;
pub mod terrain;
pub mod text;
pub mod units;
pub mod world;
