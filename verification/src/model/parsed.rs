//! The parts of an assembled log: log data, phases and actors.

use vstd::prelude::*;
use crate::model::agent::{AgentId, AgentTable};
use crate::model::combat_data::MetaDataBucket;
use crate::model::events::CombatEvent;

verus! {

/// The log as a whole.
#[derive(Debug, Clone)]
pub struct LogData {
    pub trigger_id: u16,
    pub log_start: i64,
    pub log_end: i64,
    /// End of the time line of the binary log.
    pub evtc_log_end: i64,
    pub map_id: i32,
    pub name: String,
    pub main_phase: PhaseData,
    pub dummy_target_agent: AgentId,
}

/// A phase of the log and its targets.
#[derive(Debug, Clone)]
pub struct PhaseData {
    pub start: i64,
    pub end: i64,
    pub name: String,
    pub targets: Vec<AgentId>,
}

/// A squad player.
#[derive(Debug, Clone)]
pub struct PlayerActor {
    pub agent: AgentId,
    pub account: String,
    pub character: String,
    pub group: i32,
    /// The player is in no squad.
    pub squadless: bool,
}

/// A friendly player outside the squad.
#[derive(Debug, Clone)]
pub struct NonSquadPlayerActor {
    pub agent: AgentId,
    pub account: String,
    pub character: String,
    pub group: i32,
}

/// A non-player target.
#[derive(Debug, Clone)]
pub struct NpcActor {
    pub agent: AgentId,
    pub character: String,
    pub id: i32,
}

/// A friendly actor: an index into the players or into the non-squad players.
#[derive(Debug, Clone, Copy, PartialEq, Eq)]
pub enum Friend {
    Player(usize),
    NonSquad(usize),
}


/// What linking the agents to the rows did.
#[derive(Debug, Clone, Copy, Default, PartialEq, Eq)]
pub struct LinkStats {
    pub missing_agents_added: u64,
    pub orphan_src_fixed: u64,
    pub orphan_dst_fixed: u64,
    pub invalid_both_removed_items: u64,
    pub agents_removed: u64,
    pub master_link_attempts: u64,
    pub regroup_npc_groups: u64,
    pub regroup_non_squad_groups: u64,
    pub regroup_player_groups: u64,
    pub split_pieces_created: u64,
}

/// A log with its agents linked, its actors and its events.
#[derive(Debug)]
pub struct ParsedLog {
    /// Header build and recording-tool revision.
    pub arc_version: (i32, i32),
    pub agents: AgentTable,
    pub link_stats: LinkStats,
    pub log_data: LogData,
    /// Players, by character name.
    pub players: Vec<PlayerActor>,
    pub friendly_non_squad: Vec<NonSquadPlayerActor>,
    pub targets: Vec<NpcActor>,
    /// Players and friendly non-squad players.
    pub friendlies: Vec<Friend>,
    /// Row events with addresses rewritten to the linked agents.
    pub events: Vec<CombatEvent>,
    pub metadata: MetaDataBucket,
    /// Skill table of the log: id and name.
    pub skills: Vec<(u32, String)>,
}

} // verus!
