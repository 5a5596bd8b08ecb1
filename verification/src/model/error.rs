//! Errors of the model layer.

use vstd::prelude::*;
use crate::text::{concat_str, i64_text, u64_text, signed_decimal, decimal};

verus! {

/// Why a log could not be turned into the model.
#[derive(Debug, Clone, PartialEq, Eq)]
pub enum ModelError {
    /// The recorder build predates buff applications and removals as state
    /// changes and the reworked result enum.
    UnsupportedArcBuild { build: i32 },
    /// No agent is a squad player.
    NoPlayersFound,
    /// No player is left once the invalid ones are dropped.
    NoValidPlayers,
    /// The trigger id names an encounter that is not supported.
    UnsupportedEncounter { trigger_id: u16 },
    /// The agents contradict each other.
    InconsistentAgentState(&'static str),
    /// The binary layer failed, with its message.
    ParseError(String),
}

impl ModelError {
    /// The message of the error.
    pub fn message(&self) -> (r: String)
        ensures
            r@ == match self {
                ModelError::UnsupportedArcBuild { build } => "ArcDPS build "@ + signed_decimal(*build as int)
                    + " is below 20260501 (BuffAppliesAndRemovesAsStateChanges + ResultEnumRework); only the new-generation event layout is supported"@,
                ModelError::NoPlayersFound => "No players found"@,
                ModelError::NoValidPlayers => "No valid players"@,
                ModelError::UnsupportedEncounter { trigger_id } => "trigger id "@ + decimal(*trigger_id as nat)
                    + " does not resolve to the WvW path; boss/instance encounter logic is not supported"@,
                ModelError::InconsistentAgentState(msg) => "inconsistent agent state: "@ + msg@,
                ModelError::ParseError(msg) => "parse error: "@ + msg@,
            },
    {
        match self {
            ModelError::UnsupportedArcBuild { build } => {
                let n = i64_text(*build as i64);
                let head = concat_str("ArcDPS build ", n.as_str());
                concat_str(
                    head.as_str(),
                    " is below 20260501 (BuffAppliesAndRemovesAsStateChanges + ResultEnumRework); only the new-generation event layout is supported",
                )
            },
            ModelError::NoPlayersFound => "No players found".to_owned(),
            ModelError::NoValidPlayers => "No valid players".to_owned(),
            ModelError::UnsupportedEncounter { trigger_id } => {
                let n = u64_text(*trigger_id as u64);
                let head = concat_str("trigger id ", n.as_str());
                concat_str(
                    head.as_str(),
                    " does not resolve to the WvW path; boss/instance encounter logic is not supported",
                )
            },
            ModelError::InconsistentAgentState(msg) => concat_str("inconsistent agent state: ", msg),
            ModelError::ParseError(msg) => concat_str("parse error: ", msg.as_str()),
        }
    }
}

} // verus!
