//! Binary EVTC parsing: header, agent, skill and combat row decoding.

pub mod arc_builds;
pub mod enums;
pub mod error;
pub mod models;
pub mod reader;
pub mod arc_build;
pub mod log_reader;
pub mod container;
pub mod skill_ids;
