//! Verified decoding and analysis of EVTC combat logs.

pub mod model;
pub mod parse;
pub mod semantics;
pub mod text;
