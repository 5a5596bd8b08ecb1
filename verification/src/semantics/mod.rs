//! Buff stacking simulation and the statistics built on it.

pub mod capacity;
pub mod sim;
pub mod stats;
