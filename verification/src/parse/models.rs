//! Raw EVTC model: settings, agents, skills and combat rows with their
//! bit-level predicates.

use vstd::prelude::*;
use std::collections::BTreeMap;
use crate::parse::enums::{Activation, BuffRemove, Iff, LogType, StateChange};
use crate::text::{lossy_utf8, utf8_lossy};

verus! {

/// Lower bound of the too-short limit, in milliseconds.
pub const MINIMUM_IN_COMBAT_DURATION_MS: i64 = 2200;
/// Lower bound of the too-big limit, in megabytes.
pub const MINIMUM_FILE_SIZE_MB: u64 = 100;

/// Parser settings.
#[derive(Debug, Clone, Copy)]
pub struct ParserSettings {
    /// Logs ending before this many milliseconds are rejected (at least 2200).
    pub too_short_limit_ms: i64,
    /// Decompressed logs over this many megabytes are rejected (at least 100).
    pub too_big_limit_mb: u64,
    /// Whether extension rows are kept.
    pub parse_extensions: bool,
}

/// The default settings: both limits at their lower bounds, extensions on.
pub open spec fn default_settings() -> ParserSettings {
    ParserSettings {
        too_short_limit_ms: MINIMUM_IN_COMBAT_DURATION_MS,
        too_big_limit_mb: MINIMUM_FILE_SIZE_MB,
        parse_extensions: true,
    }
}

impl Default for ParserSettings {
    fn default() -> (r: Self)
        ensures
            r == default_settings(),
    {
        ParserSettings {
            too_short_limit_ms: MINIMUM_IN_COMBAT_DURATION_MS,
            too_big_limit_mb: MINIMUM_FILE_SIZE_MB,
            parse_extensions: true,
        }
    }
}

impl ParserSettings {
    /// Settings with each limit raised to its lower bound.
    pub fn new(too_short_limit_ms: i64, too_big_limit_mb: u64) -> (r: Self)
        ensures
            r.too_short_limit_ms == if too_short_limit_ms > MINIMUM_IN_COMBAT_DURATION_MS {
                too_short_limit_ms
            } else {
                MINIMUM_IN_COMBAT_DURATION_MS
            },
            r.too_big_limit_mb == if too_big_limit_mb > MINIMUM_FILE_SIZE_MB {
                too_big_limit_mb
            } else {
                MINIMUM_FILE_SIZE_MB
            },
            r.parse_extensions,
    {
        ParserSettings {
            too_short_limit_ms: if too_short_limit_ms > MINIMUM_IN_COMBAT_DURATION_MS {
                too_short_limit_ms
            } else {
                MINIMUM_IN_COMBAT_DURATION_MS
            },
            too_big_limit_mb: if too_big_limit_mb > MINIMUM_FILE_SIZE_MB {
                too_big_limit_mb
            } else {
                MINIMUM_FILE_SIZE_MB
            },
            parse_extensions: true,
        }
    }
}

/// Index of the first zero byte of `s`, or its length when there is none.
pub open spec fn nul_index(s: Seq<u8>) -> nat
    decreases s.len(),
{
    if s.len() == 0 {
        0
    } else if s[0] == 0 {
        0
    } else {
        1 + nul_index(s.drop_first())
    }
}

pub proof fn lemma_nul_index(s: Seq<u8>)
    ensures
        nul_index(s) <= s.len(),
        forall|i: int| 0 <= i < nul_index(s) ==> s[i] != 0,
        nul_index(s) < s.len() ==> s[nul_index(s) as int] == 0,
    decreases s.len(),
{
    if s.len() > 0 && s[0] != 0 {
        lemma_nul_index(s.drop_first());
        assert forall|i: int| 0 <= i < nul_index(s) implies s[i] != 0 by {
            if i > 0 {
                assert(s[i] == s.drop_first()[i - 1]);
            }
        }
    }
}

/// Position of the first zero byte of `s`, or its length.
pub fn find_nul(s: &[u8]) -> (r: usize)
    ensures
        r == nul_index(s@),
{
    let mut i: usize = 0;
    assert(s@.subrange(0, s@.len() as int) =~= s@);
    while i < s.len()
        invariant
            i <= s@.len(),
            nul_index(s@) == i + nul_index(s@.subrange(i as int, s@.len() as int)),
        decreases s@.len() - i,
    {
        let ghost rest = s@.subrange(i as int, s@.len() as int);
        if s[i] == 0 {
            assert(rest[0] == 0);
            return i;
        }
        assert(rest.drop_first() =~= s@.subrange(i + 1, s@.len() as int));
        i = i + 1;
    }
    assert(s@.subrange(i as int, s@.len() as int).len() == 0);
    i
}

/// Raw agent record (96 bytes).
#[derive(Debug, Clone, PartialEq, Eq)]
pub struct EvtcRawAgent {
    pub address: u64,
    /// Profession (players) or species id / gadget marker (others).
    pub prof: u32,
    /// Elite specialisation; `u32::MAX` marks a non-player.
    pub is_elite: u32,
    pub toughness: u16,
    pub concentration: u16,
    pub healing: u16,
    /// Hitbox width as stored (half the model value).
    pub hitbox_width_raw: u16,
    pub condition: u16,
    /// Hitbox height as stored (half the model value).
    pub hitbox_height_raw: u16,
    /// The 68 name bytes as stored, NULs included.
    pub name: [u8; 68],
}

/// Kind of a raw agent.
#[derive(Debug, Clone, Copy, PartialEq, Eq, Structural)]
pub enum RawAgentKind {
    Player,
    Npc,
    Gadget,
}

/// Kind of an agent from its profession and elite fields.
pub open spec fn kind_of(prof: u32, is_elite: u32) -> RawAgentKind {
    if is_elite == 0xFFFF_FFFF {
        if prof / 0x1_0000 == 0xFFFF {
            RawAgentKind::Gadget
        } else {
            RawAgentKind::Npc
        }
    } else {
        RawAgentKind::Player
    }
}

impl EvtcRawAgent {
    /// The name bytes before the first NUL.
    pub fn name_cstr(&self) -> (r: &[u8])
        ensures
            r@ == self.name@.subrange(0, nul_index(self.name@) as int),
    {
        let s = self.name.as_slice();
        let nul = find_nul(s);
        proof {
            lemma_nul_index(self.name@);
        }
        slice_prefix(s, nul)
    }

    /// All 68 name bytes decoded as lossy UTF-8 (NULs kept).
    pub fn name_full_lossy(&self) -> (r: String)
        ensures
            r@ == lossy_utf8(self.name@),
    {
        utf8_lossy(self.name.as_slice())
    }

    /// Player, NPC or gadget: non-players carry `u32::MAX` as elite, and
    /// gadgets have all high 16 profession bits set.
    pub fn agent_kind(&self) -> (r: RawAgentKind)
        ensures
            r == kind_of(self.prof, self.is_elite),
    {
        if self.is_elite == 0xFFFF_FFFF {
            if self.prof / 0x1_0000 == 0xFFFF {
                RawAgentKind::Gadget
            } else {
                RawAgentKind::Npc
            }
        } else {
            RawAgentKind::Player
        }
    }
}

/// `&s[..end]`.
pub fn slice_prefix<'b>(s: &'b [u8], end: usize) -> (r: &'b [u8])
    requires
        end <= s@.len(),
    ensures
        r@ == s@.subrange(0, end as int),
{
    &s[0..end]
}

/// Raw skill record (68 bytes).
#[derive(Debug, Clone, PartialEq, Eq)]
pub struct EvtcRawSkill {
    /// Skill id, the bits of a signed 32-bit value.
    pub id: u32,
    /// The 64 name bytes up to the first NUL, lossy UTF-8.
    pub name: String,
}

/// Counts of dropped combat rows, by reason.
#[derive(Debug, Clone, Copy, Default, PartialEq, Eq)]
pub struct DiscardStats {
    /// Unsupported state change.
    pub unsupported_state_change: u64,
    /// Agent row after the map changed.
    pub map_mismatch: u64,
    /// Initial buff row of an instance log.
    pub instance_buff_initial: u64,
    /// Health update over 200%.
    pub invalid_health_update: u64,
    /// Extension row while extensions are off.
    pub extensions_disabled: u64,
    /// Extension registration row.
    pub extension_metadata: u64,
    /// Extension row of an unregistered extension.
    pub unknown_extension_pad: u64,
    /// Row that references nothing.
    pub empty_event: u64,
    /// Non-extension row after the log end.
    pub after_log_end: u64,
}

impl DiscardStats {
    pub open spec fn total_of(&self) -> int {
        self.unsupported_state_change + self.map_mismatch + self.instance_buff_initial
            + self.invalid_health_update + self.extensions_disabled + self.extension_metadata
            + self.unknown_extension_pad + self.empty_event + self.after_log_end
    }

    /// Number of dropped rows over all reasons.
    pub fn total(&self) -> (r: u64)
        requires
            self.total_of() <= u64::MAX,
        ensures
            r == self.total_of(),
    {
        self.unsupported_state_change + self.map_mismatch + self.instance_buff_initial
            + self.invalid_health_update + self.extensions_disabled + self.extension_metadata
            + self.unknown_extension_pad + self.empty_event + self.after_log_end
    }
}

/// Counters of one parse.
#[derive(Debug, Clone, Copy, Default, PartialEq, Eq)]
pub struct ParseStats {
    pub raw_agent_count: u32,
    pub raw_skill_count: u32,
    /// Number of whole 64-byte rows after the skill table.
    pub raw_combat_count: u64,
    /// Rows kept in the log.
    pub kept_combat_count: usize,
    /// Recording-tool build rows consumed (neither kept nor counted as dropped).
    pub arc_build_consumed: u64,
    pub discarded: DiscardStats,
}

/// One 64-byte combat row; both revisions decode to these fields.
#[derive(Debug, Clone, Copy, PartialEq, Eq)]
pub struct EvtcCombatItem {
    /// Milliseconds; zeroed against the first timed row once parsed.
    pub time: i64,
    pub src_agent: u64,
    pub dst_agent: u64,
    pub value: i32,
    pub buff_dmg: i32,
    pub overstack_value: u32,
    pub skill_id: u32,
    pub src_instid: u16,
    pub dst_instid: u16,
    pub src_master_instid: u16,
    pub dst_master_instid: u16,
    pub iff: Iff,
    pub iff_raw: u8,
    pub buff: u8,
    pub result: u8,
    pub activation: Activation,
    pub activation_raw: u8,
    pub buff_remove: BuffRemove,
    pub buff_remove_raw: u8,
    pub is_ninety: u8,
    pub is_fifty: u8,
    pub is_moving: u8,
    pub state_change: StateChange,
    pub state_change_raw: u8,
    pub is_flanking: u8,
    pub is_shields: u8,
    pub is_offcycle: u8,
    /// Extension signature or payload (revision 1); 0 in revision 0.
    pub pad: u32,
}

/// The four bytes of a row's pad, lowest first.
#[derive(Debug, Clone, Copy, PartialEq, Eq)]
pub struct PadBytes {
    pub b1: u8,
    pub b2: u8,
    pub b3: u8,
    pub b4: u8,
}

pub open spec fn is_extension_kind(s: StateChange) -> bool {
    s == StateChange::Extension || s == StateChange::ExtensionCombat
}

pub open spec fn is_effect_kind(s: StateChange) -> bool {
    ||| s == StateChange::Effect_51
    ||| s == StateChange::Effect_45
    ||| s == StateChange::EffectAgentCreate
    ||| s == StateChange::EffectAgentRemove
    ||| s == StateChange::EffectGroundCreate
    ||| s == StateChange::EffectGroundRemove
    ||| s == StateChange::EffectMissileCreate
}

pub open spec fn is_missile_kind(s: StateChange) -> bool {
    s == StateChange::MissileCreate || s == StateChange::MissileLaunch || s
        == StateChange::MissileRemove
}

pub open spec fn is_essential_metadata_kind(s: StateChange) -> bool {
    ||| s == StateChange::IDToGUID
    ||| s == StateChange::Language
    ||| s == StateChange::GWBuild
    ||| s == StateChange::InstanceStart
    ||| s == StateChange::LogNPCUpdate
    ||| s == StateChange::FractalScale
    ||| s == StateChange::MapID
    ||| s == StateChange::RuleSet
    ||| s == StateChange::Tick
    ||| s == StateChange::SquadCombatEnd
    ||| s == StateChange::SquadCombatStart
    ||| s == StateChange::TickRate
    ||| s == StateChange::WvWTeams
}

pub open spec fn is_position_kind(s: StateChange) -> bool {
    s == StateChange::Position || s == StateChange::Teleport
}

pub open spec fn is_geographical_kind(s: StateChange) -> bool {
    is_position_kind(s) || s == StateChange::Rotation || s == StateChange::Velocity
}

/// State changes whose source field holds an agent address.
pub open spec fn src_is_agent_kind(s: StateChange) -> bool {
    ||| s == StateChange::Combat
    ||| s == StateChange::EnterCombat
    ||| s == StateChange::ExitCombat
    ||| s == StateChange::ChangeUp
    ||| s == StateChange::ChangeDead
    ||| s == StateChange::ChangeDown
    ||| s == StateChange::Spawn
    ||| s == StateChange::Despawn
    ||| s == StateChange::HealthUpdate
    ||| s == StateChange::WeaponSwap
    ||| s == StateChange::MaxHealthUpdate
    ||| s == StateChange::PointOfView
    ||| s == StateChange::BuffInitial
    ||| is_geographical_kind(s)
    ||| s == StateChange::TeamChange
    ||| s == StateChange::AttackTarget
    ||| s == StateChange::Targetable
    ||| s == StateChange::StackActive
    ||| s == StateChange::StackDeactive
    ||| s == StateChange::Guild
    ||| s == StateChange::BreakbarState
    ||| s == StateChange::BreakbarPercent
    ||| s == StateChange::Marker
    ||| s == StateChange::BarrierUpdate
    ||| s == StateChange::Last90BeforeDown
    ||| s == StateChange::Effect_45
    ||| s == StateChange::Effect_51
    ||| s == StateChange::EffectGroundCreate
    ||| s == StateChange::EffectAgentCreate
    ||| s == StateChange::Glider
    ||| s == StateChange::StunBreak
    ||| s == StateChange::MissileCreate
    ||| s == StateChange::MissileLaunch
    ||| s == StateChange::MissileRemove
    ||| s == StateChange::AnimationStart
    ||| s == StateChange::AnimationStop
    ||| s == StateChange::BuffRemoveAll
    ||| s == StateChange::BuffRemoveSingle
    ||| s == StateChange::BuffApply
    ||| s == StateChange::Transformation
    ||| s == StateChange::StealthChange
    ||| s == StateChange::GadgetAnimation
    ||| s == StateChange::GadgetNameVisible
    ||| s == StateChange::EffectMissileCreate
    ||| s == StateChange::GadgetCaptureOutlineShow
    ||| s == StateChange::GadgetCaptureSplitPercent
    ||| s == StateChange::GadgetCaptureOutlineHide
    ||| s == StateChange::GadgetCaptureOutlinePoint
    ||| s == StateChange::Jump
}

/// State changes whose destination field holds an agent address.
pub open spec fn dst_is_agent_kind(s: StateChange) -> bool {
    ||| s == StateChange::Combat
    ||| s == StateChange::AttackTarget
    ||| s == StateChange::BuffInitial
    ||| s == StateChange::Effect_45
    ||| s == StateChange::LogNPCUpdate
    ||| s == StateChange::Effect_51
    ||| s == StateChange::EffectAgentCreate
    ||| s == StateChange::MissileLaunch
    ||| s == StateChange::AnimationStart
    ||| s == StateChange::BuffRemoveAll
    ||| s == StateChange::BuffRemoveSingle
    ||| s == StateChange::BuffApply
    ||| s == StateChange::BuffChange
}

/// State changes whose time takes part in zeroing the time line.
pub open spec fn has_time_kind(s: StateChange) -> bool {
    ||| src_is_agent_kind(s)
    ||| dst_is_agent_kind(s)
    ||| s == StateChange::Reward
    ||| s == StateChange::TickRate
    ||| s == StateChange::SquadMarker
    ||| s == StateChange::SquadCombatStart
    ||| s == StateChange::SquadCombatEnd
    ||| s == StateChange::EffectAgentRemove
    ||| s == StateChange::EffectGroundRemove
    ||| s == StateChange::MapID
    ||| s == StateChange::MapChange
    ||| s == StateChange::WvWObjectiveStatus
    ||| s == StateChange::Tick
}

/// Log type of a squad combat row: the low 32 bits of the destination field
/// read as a signed integer.
pub open spec fn squad_log_type_of(dst_agent: u64) -> LogType {
    LogType::of_int(signed32((dst_agent % 0x1_0000_0000) as int) as i32)
}

pub open spec fn signed32(u: int) -> int {
    if u < 0x8000_0000 { u } else { u - 0x1_0000_0000 }
}

impl EvtcCombatItem {
    /// The pad bytes, lowest first.
    pub fn pad_bytes(&self) -> (r: PadBytes)
        ensures
            r.b1 == self.pad % 256,
            r.b2 == (self.pad / 256) % 256,
            r.b3 == (self.pad / 65536) % 256,
            r.b4 == self.pad / 16777216,
    {
        let p = self.pad;
        PadBytes {
            b1: (p % 256) as u8,
            b2: ((p / 256) % 256) as u8,
            b3: ((p / 65536) % 256) as u8,
            b4: (p / 16777216) as u8,
        }
    }

    pub fn is_extension(&self) -> (r: bool)
        ensures
            r == is_extension_kind(self.state_change),
    {
        matches!(self.state_change, StateChange::Extension | StateChange::ExtensionCombat)
    }

    pub fn is_effect(&self) -> (r: bool)
        ensures
            r == is_effect_kind(self.state_change),
    {
        matches!(
            self.state_change,
            StateChange::Effect_51 | StateChange::Effect_45 | StateChange::EffectAgentCreate
                | StateChange::EffectAgentRemove | StateChange::EffectGroundCreate
                | StateChange::EffectGroundRemove | StateChange::EffectMissileCreate
        )
    }

    pub fn is_missile(&self) -> (r: bool)
        ensures
            r == is_missile_kind(self.state_change),
    {
        matches!(
            self.state_change,
            StateChange::MissileCreate | StateChange::MissileLaunch | StateChange::MissileRemove
        )
    }

    /// Metadata rows handled in a first pass.
    pub fn is_essential_metadata(&self) -> (r: bool)
        ensures
            r == is_essential_metadata_kind(self.state_change),
    {
        matches!(
            self.state_change,
            StateChange::IDToGUID | StateChange::Language | StateChange::GWBuild
                | StateChange::InstanceStart | StateChange::LogNPCUpdate | StateChange::FractalScale
                | StateChange::MapID | StateChange::RuleSet | StateChange::Tick
                | StateChange::SquadCombatEnd | StateChange::SquadCombatStart
                | StateChange::TickRate | StateChange::WvWTeams
        )
    }

    pub fn src_is_agent(&self) -> (r: bool)
        ensures
            r == src_is_agent_kind(self.state_change),
    {
        self.is_geographical() || matches!(
            self.state_change,
            StateChange::Combat | StateChange::EnterCombat | StateChange::ExitCombat
                | StateChange::ChangeUp | StateChange::ChangeDead | StateChange::ChangeDown
                | StateChange::Spawn | StateChange::Despawn | StateChange::HealthUpdate
                | StateChange::WeaponSwap | StateChange::MaxHealthUpdate | StateChange::PointOfView
                | StateChange::BuffInitial | StateChange::TeamChange | StateChange::AttackTarget
                | StateChange::Targetable | StateChange::StackActive | StateChange::StackDeactive
                | StateChange::Guild | StateChange::BreakbarState | StateChange::BreakbarPercent
                | StateChange::Marker | StateChange::BarrierUpdate | StateChange::Last90BeforeDown
                | StateChange::Effect_45 | StateChange::Effect_51 | StateChange::EffectGroundCreate
                | StateChange::EffectAgentCreate | StateChange::Glider | StateChange::StunBreak
                | StateChange::MissileCreate | StateChange::MissileLaunch
                | StateChange::MissileRemove | StateChange::AnimationStart
                | StateChange::AnimationStop | StateChange::BuffRemoveAll
                | StateChange::BuffRemoveSingle | StateChange::BuffApply
                | StateChange::Transformation | StateChange::StealthChange
                | StateChange::GadgetAnimation | StateChange::GadgetNameVisible
                | StateChange::EffectMissileCreate | StateChange::GadgetCaptureOutlineShow
                | StateChange::GadgetCaptureSplitPercent | StateChange::GadgetCaptureOutlineHide
                | StateChange::GadgetCaptureOutlinePoint | StateChange::Jump
        )
    }

    pub fn dst_is_agent(&self) -> (r: bool)
        ensures
            r == dst_is_agent_kind(self.state_change),
    {
        matches!(
            self.state_change,
            StateChange::Combat | StateChange::AttackTarget | StateChange::BuffInitial
                | StateChange::Effect_45 | StateChange::LogNPCUpdate | StateChange::Effect_51
                | StateChange::EffectAgentCreate | StateChange::MissileLaunch
                | StateChange::AnimationStart | StateChange::BuffRemoveAll
                | StateChange::BuffRemoveSingle | StateChange::BuffApply | StateChange::BuffChange
        )
    }

    pub fn has_time(&self) -> (r: bool)
        ensures
            r == has_time_kind(self.state_change),
    {
        self.src_is_agent() || self.dst_is_agent() || matches!(
            self.state_change,
            StateChange::Reward | StateChange::TickRate | StateChange::SquadMarker
                | StateChange::SquadCombatStart | StateChange::SquadCombatEnd
                | StateChange::EffectAgentRemove | StateChange::EffectGroundRemove
                | StateChange::MapID | StateChange::MapChange | StateChange::WvWObjectiveStatus
                | StateChange::Tick
        )
    }

    pub fn is_position(&self) -> (r: bool)
        ensures
            r == is_position_kind(self.state_change),
    {
        matches!(self.state_change, StateChange::Position | StateChange::Teleport)
    }

    pub fn is_geographical(&self) -> (r: bool)
        ensures
            r == is_geographical_kind(self.state_change),
    {
        self.is_position() || matches!(
            self.state_change,
            StateChange::Rotation | StateChange::Velocity
        )
    }

    /// Log type of a squad combat start/end row.
    pub fn squad_combat_log_type(&self) -> (r: LogType)
        ensures
            r == squad_log_type_of(self.dst_agent),
    {
        let low32: u64 = self.dst_agent % 0x1_0000_0000;
        let signed: i32 = if low32 < 0x8000_0000 {
            low32 as i32
        } else {
            (low32 as i64 - 0x1_0000_0000i64) as i32
        };
        LogType::from_csharp_int(signed)
    }
}

/// Signature of the built-in healing statistics extension.
pub const EXT_HEALING_STATS: u32 = 0x9c9b3c99;

/// Signature (low 32 bits) and revision (next 24 bits) of an extension
/// registration row's source field.
pub fn parse_extension_header(src_agent: u64) -> (r: (u32, u32))
    ensures
        r.0 == src_agent % 0x1_0000_0000,
        r.1 == (src_agent / 0x1_0000_0000) % 0x100_0000,
{
    let sig = (src_agent % 0x1_0000_0000) as u32;
    let rev = ((src_agent / 0x1_0000_0000) % 0x100_0000) as u32;
    (sig, rev)
}

pub open spec fn extension_supported_spec(sig: u32, rev: u32) -> bool {
    sig == EXT_HEALING_STATS && (rev == 1 || rev == 2)
}

/// Whether an extension is supported: healing statistics, revisions 1 and 2.
pub fn extension_supported(sig: u32, rev: u32) -> (r: bool)
    ensures
        r == extension_supported_spec(sig, rev),
{
    sig == EXT_HEALING_STATS && (rev == 1 || rev == 2)
}

/// A parsed log before agents are linked.
#[derive(Debug)]
pub struct EvtcRawLog {
    /// Integer part of the 12-byte header version (after `EVTC`).
    pub header_build: i32,
    /// Archive revision (any non-zero value reads as revision 1).
    pub revision: u8,
    /// Trigger id; 2 for instance logs.
    pub id: u16,
    pub agents: Vec<EvtcRawAgent>,
    pub skills: Vec<EvtcRawSkill>,
    /// Kept rows, in stream order, times zeroed.
    pub combat_events: Vec<EvtcCombatItem>,
    /// Agent redirections collected from agent change rows.
    pub agent_redirection: BTreeMap<u64, u64>,
    /// Signatures of registered extensions.
    pub enabled_extensions: Vec<u32>,
    /// Map id of the first map row, -1 when there is none.
    pub map_id: i32,
    /// Raw time of the first timed row (the zeroing offset).
    pub log_start_offset: i64,
    /// Zeroed time of the last timed row.
    pub log_end_time: i64,
    /// Recording-tool (build, revision).
    pub arc_version: (i32, i32),
    /// Game build: the last non-zero game build row.
    pub gw2_build: u64,
    pub stats: ParseStats,
}

} // verus!
