//! The agent model built on a parsed log.

pub mod spec;
pub mod agent;
pub mod raw_agent;
pub mod manipulation;
pub mod assemble;
pub mod events;
pub mod float_bits;
pub mod ordering;
pub mod error;
pub mod combat_data;
pub mod parsed;
pub mod factory;
pub mod state_change;
pub mod stats;
