//! Typed event payloads of a combat log and a few of their derived values.

use vstd::prelude::*;
use vstd::string::StringExecFns;
use crate::model::spec::Spec;
use crate::parse::enums::{AnimationStart, AnimationStop, BreakbarState, BuffStackType, Iff, Language, LogType, SkillAction};

verus! {

/// Time and agent of a status row.
#[derive(Debug, Clone, Copy, PartialEq, Eq, Structural)]
pub struct StatusEventFields {
    pub time: i64,
    pub src: u64,
}

/// Common fields of a skill hit: when, by whom, on whom, and the row flags.
#[derive(Debug, Clone, Copy, PartialEq, Eq, Structural)]
pub struct SkillEventFields {
    pub time: i64,
    pub from: u64,
    pub to: u64,
    pub skill_id: u32,
    pub iff: Iff,
    pub is_over_ninety: bool,
    pub against_under_fifty: bool,
    pub is_moving: bool,
    pub against_moving: bool,
    pub is_flanking: bool,
    pub against_downed: bool,
}

/// Common fields of a buff row.
#[derive(Debug, Clone, Copy, PartialEq, Eq, Structural)]
pub struct BuffEventFields {
    pub time: i64,
    pub buff_id: u32,
    pub by: u64,
    pub to: u64,
    pub iff: Iff,
}

/// A hit on health or barrier, and how it landed.
#[derive(Debug, Clone, Copy, PartialEq, Eq, Structural)]
pub struct HealthDamageEventFields {
    pub skill: SkillEventFields,
    pub health_damage: i32,
    pub shield_damage: i32,
    pub has_hit: bool,
    pub has_crit: bool,
    pub has_glanced: bool,
    pub is_life_leech: bool,
    pub is_blind: bool,
    pub is_absorbed: bool,
    pub is_blocked: bool,
    pub is_evaded: bool,
    pub is_not_a_damage_event: bool,
    pub has_interrupted: bool,
    pub has_downed: bool,
    pub has_killed: bool,
}

/// A crowd control hit and its defiance contribution.
#[derive(Debug, Clone, Copy, PartialEq, Eq, Structural)]
pub struct CrowdControlEventFields {
    pub skill: SkillEventFields,
    pub duration: i32,
    pub defiance_calculation: i32,
}

/// A stun break and the stun time it cut.
#[derive(Debug, Clone, Copy, PartialEq, Eq, Structural)]
pub struct StunBreakEventFields {
    pub skill: SkillEventFields,
    pub remaining_duration: i32,
}

/// Common fields of buff applications and extensions.
#[derive(Debug, Clone, Copy, PartialEq, Eq, Structural)]
pub struct BuffApplyBaseFields {
    pub base: BuffEventFields,
    pub buff_instance: u32,
}

/// A buff application.
#[derive(Debug, Clone, Copy, PartialEq, Eq, Structural)]
pub struct BuffApplyEventFields {
    pub apply: BuffApplyBaseFields,
    pub initial: bool,
    pub applied_duration: i32,
    pub original_applied_duration: i32,
    pub added_active: bool,
}

/// A buff extension.
#[derive(Debug, Clone, Copy, PartialEq, Eq, Structural)]
pub struct BuffExtensionEventFields {
    pub apply: BuffApplyBaseFields,
    pub new_duration: u32,
    pub extended_duration: i64,
}

/// A buff stack becoming active.
#[derive(Debug, Clone, Copy, PartialEq, Eq, Structural)]
pub struct BuffStackEventFields {
    pub base: BuffEventFields,
    pub buff_instance: u32,
}

/// A buff stack becoming inactive.
#[derive(Debug, Clone, Copy, PartialEq, Eq, Structural)]
pub struct BuffStackDeactiveEventFields {
    pub stack: BuffStackEventFields,
    pub reset_to_duration: i32,
}

/// Common fields of buff removals.
#[derive(Debug, Clone, Copy, PartialEq, Eq, Structural)]
pub struct BuffRemoveBaseFields {
    pub base: BuffEventFields,
    pub removed_duration: i32,
}

/// Removal of one buff stack.
#[derive(Debug, Clone, Copy, PartialEq, Eq, Structural)]
pub struct BuffRemoveSingleEventFields {
    pub remove: BuffRemoveBaseFields,
    pub buff_instance: u32,
    pub overstack_or_natural_end: bool,
}

/// Removal of all stacks of a buff.
#[derive(Debug, Clone, Copy, PartialEq, Eq, Structural)]
pub struct BuffRemoveAllEventFields {
    pub remove: BuffRemoveBaseFields,
    pub removed_stacks: u8,
    pub last_removed_duration: i32,
}

/// A weapon set swap.
#[derive(Debug, Clone, Copy, PartialEq, Eq, Structural)]
pub struct WeaponSwapEventFields {
    pub time: i64,
    pub caster: u64,
    pub swapped_to: i32,
    pub swapped_from: i32,
}

/// Entering or leaving combat, with subgroup and specialization.
#[derive(Debug, Clone, Copy, PartialEq, Eq, Structural)]
pub struct CombatStatusEventFields {
    pub base: StatusEventFields,
    pub subgroup: u64,
    pub spec: Spec,
    pub base_spec: Spec,
}

/// A maximum health update.
#[derive(Debug, Clone, Copy, PartialEq, Eq, Structural)]
pub struct MaxHealthEventFields {
    pub base: StatusEventFields,
    pub max_health: i32,
}

/// A team change.
#[derive(Debug, Clone, Copy, PartialEq, Eq, Structural)]
pub struct TeamChangeEventFields {
    pub base: StatusEventFields,
    pub team_id_into: u64,
    pub team_id_coming_from: u64,
}

/// A change of targetability.
#[derive(Debug, Clone, Copy, PartialEq, Eq, Structural)]
pub struct TargetableEventFields {
    pub base: StatusEventFields,
    pub targetable: bool,
}

/// A change of visibility.
#[derive(Debug, Clone, Copy, PartialEq, Eq, Structural)]
pub struct VisibilityEventFields {
    pub base: StatusEventFields,
    pub visible: bool,
}

/// A defiance bar state change.
#[derive(Debug, Clone, Copy, PartialEq, Eq, Structural)]
pub struct BreakbarStateEventFields {
    pub base: StatusEventFields,
    pub state: BreakbarState,
}

/// Glider deployed or stowed.
#[derive(Debug, Clone, Copy, PartialEq, Eq, Structural)]
pub struct GliderEventFields {
    pub base: StatusEventFields,
    pub deployed: bool,
}

/// Time since the agent last was above 90% before going down.
#[derive(Debug, Clone, Copy, PartialEq, Eq, Structural)]
pub struct Last90BeforeDownEventFields {
    pub base: StatusEventFields,
    pub time_since_last_90: u64,
}

/// A jump or landing.
#[derive(Debug, Clone, Copy, PartialEq, Eq, Structural)]
pub struct JumpEventFields {
    pub base: StatusEventFields,
    pub on_land: bool,
}

/// A missile row.
#[derive(Debug, Clone, Copy, PartialEq, Eq, Structural)]
pub struct MissileEventFields {
    pub time: i64,
    pub src: u64,
    pub skill_id: u32,
}

/// A visual effect known by its GUID.
#[derive(Debug, Clone, PartialEq, Eq)]
pub struct EffectGuidInfo {
    pub guid_hex: String,
    pub default_duration: i64,
}

/// A World vs. World objective and the teams that held it, in time order.
#[derive(Debug, Clone, PartialEq, Eq)]
pub struct WvWObjectiveStatusEventFields {
    pub map_id: i32,
    pub objective_id: i32,
    pub auto_upgrade_progress: u32,
    pub owners: Vec<(u32, i64)>,
}

/// Start of the instance, with its server address when known.
#[derive(Debug, Clone, Copy, PartialEq, Eq)]
pub struct InstanceStartEventFields {
    pub time: i64,
    pub time_offset_from_instance_creation: i64,
    pub instance_ip: Option<[u8; 4]>,
}

/// Language of the game client.
#[derive(Debug, Clone, Copy, PartialEq, Eq, Structural)]
pub struct LanguageEventFields {
    pub language: Language,
}

/// Game build.
#[derive(Debug, Clone, Copy, PartialEq, Eq, Structural)]
pub struct Gw2BuildEventFields {
    pub build: u64,
}

/// Shard and home worlds, with the region when it can be told.
#[derive(Debug, Clone, Copy, PartialEq, Eq, Structural)]
pub struct ShardEventFields {
    pub shard_id: u64,
    pub upper_shard_id: u64,
    pub user_world_id_0: u32,
    pub user_world_id_1: u32,
    pub region: Region,
}

/// Map of the log.
#[derive(Debug, Clone, Copy, PartialEq, Eq, Structural)]
pub struct MapIdEventFields {
    pub time: i64,
    pub map_id: i32,
    pub map_type: u64,
}

/// Change of map.
#[derive(Debug, Clone, Copy, PartialEq, Eq, Structural)]
pub struct MapChangeEventFields {
    pub time: i64,
    pub map_id: i32,
    pub old_map_id: i32,
    pub map_type: i32,
}

/// The recording player.
#[derive(Debug, Clone, Copy, PartialEq, Eq, Structural)]
pub struct PointOfViewEventFields {
    pub time: i64,
    pub pov: u64,
}

/// Fractal scale.
#[derive(Debug, Clone, Copy, PartialEq, Eq, Structural)]
pub struct FractalScaleEventFields {
    pub scale: u8,
}

/// World vs. World shards and teams by colour.
#[derive(Debug, Clone, Copy, PartialEq, Eq, Structural)]
pub struct WvWTeamsEventFields {
    pub red_shard_id: u32,
    pub blue_shard_id: u32,
    pub green_shard_id: u32,
    pub red_team_id: u32,
    pub blue_team_id: u32,
    pub green_team_id: u32,
}

/// Server tick rate.
#[derive(Debug, Clone, Copy, PartialEq, Eq, Structural)]
pub struct TickRateEventFields {
    pub time: i64,
    pub tick_rate: u64,
}

/// Server tick.
#[derive(Debug, Clone, Copy, PartialEq, Eq, Structural)]
pub struct TickEventFields {
    pub time: i64,
    pub tick_interpolated: u64,
    pub tick_since_last_update: u64,
}

/// An error row of the recorder.
#[derive(Debug, Clone, PartialEq, Eq)]
pub struct ErrorEventFields {
    pub message: String,
}

/// Server and local clock of a log boundary row.
#[derive(Debug, Clone, Copy, PartialEq, Eq, Structural)]
pub struct LogDateEventFields {
    pub time: i64,
    pub server_unix_time_stamp: u32,
    pub local_unix_time_stamp: u32,
}

/// Start of a squad combat.
#[derive(Debug, Clone, Copy, PartialEq, Eq, Structural)]
pub struct SquadCombatStartEventFields {
    pub date: LogDateEventFields,
    pub log_type: LogType,
}

/// End of a squad combat.
#[derive(Debug, Clone, Copy, PartialEq, Eq, Structural)]
pub struct SquadCombatEndEventFields {
    pub date: LogDateEventFields,
    pub by_pov_map_exit: bool,
}

/// Change of the log's NPC.
#[derive(Debug, Clone, Copy, PartialEq, Eq, Structural)]
pub struct LogNpcUpdateEventFields {
    pub date: LogDateEventFields,
    pub agent_id: u16,
    pub trigger_agent: u64,
    pub trigger_is_gadget: bool,
}

/// A reward chest.
#[derive(Debug, Clone, Copy, PartialEq, Eq, Structural)]
pub struct RewardEventFields {
    pub time: i64,
    pub reward_id: u64,
    pub reward_type: i32,
}

/// Guild of an agent.
#[derive(Debug, Clone, PartialEq, Eq)]
pub struct GuildEventFields {
    pub src: u64,
    pub guild_key_hex: String,
}

/// Link of an attack target to its gadget.
#[derive(Debug, Clone, Copy, PartialEq, Eq, Structural)]
pub struct AttackTargetEventFields {
    pub time: i64,
    pub src: u64,
    pub attack_target: u64,
    pub targetable: bool,
}

/// A content GUID in two 64-bit halves and the id it names.
#[derive(Debug, Clone, Copy, PartialEq, Eq, Structural)]
pub struct GuidEventFields {
    pub guid_first8: u64,
    pub guid_last8: u64,
    pub content_id: u32,
}

/// Static buff information.
#[derive(Debug, Clone, Copy, PartialEq, Eq, Structural)]
pub struct BuffInfoRowFields {
    pub probably_invul: bool,
    pub probably_invert: bool,
    pub category_byte: u8,
    pub stacking_type_byte: u8,
    pub stacking_type: BuffStackType,
    pub probably_resistance: bool,
    pub max_stacks: u16,
    pub duration_cap: u32,
}

/// A timed action of a skill.
#[derive(Debug, Clone, Copy, PartialEq, Eq, Structural)]
pub struct SkillTimingRowFields {
    pub action_byte: u8,
    pub action: SkillAction,
    pub at_millisecond: u64,
}

/// How a cast animation ended.
#[derive(Debug, Clone, Copy, PartialEq, Eq, Structural)]
pub enum AnimationStatus {
    Unknown,
    Reduced,
    Interrupted,
    Full,
    Instant,
}

/// Region of a shard.
#[derive(Debug, Clone, Copy, PartialEq, Eq, Structural)]
pub enum Region {
    Na,
    Eu,
    Cn,
    Unknown,
}

impl Region {
    pub open spec fn of_shard(shard_id: u64) -> Region {
        if 1000 <= shard_id < 2000 {
            Region::Na
        } else if 2000 <= shard_id < 3000 {
            Region::Eu
        } else if 7000 <= shard_id < 8000 {
            Region::Cn
        } else {
            Region::Unknown
        }
    }

    /// Shards 1000-1999 are North American, 2000-2999 European, 7000-7999 Chinese.
    pub fn from_shard_id(shard_id: u64) -> (r: Region)
        ensures
            r == Self::of_shard(shard_id),
    {
        if 1000 <= shard_id && shard_id < 2000 {
            Region::Na
        } else if 2000 <= shard_id && shard_id < 3000 {
            Region::Eu
        } else if 7000 <= shard_id && shard_id < 8000 {
            Region::Cn
        } else {
            Region::Unknown
        }
    }
}

impl WvWObjectiveStatusEventFields {
    /// The map id shifted 16 bits up plus the objective id.
    pub fn key(&self) -> (r: i64)
        ensures
            r == self.map_id * 65536 + self.objective_id,
    {
        (self.map_id as i64) * 65536 + self.objective_id as i64
    }
}

/// Upper-case hexadecimal digit.
pub open spec fn hex_digit(n: int) -> char {
    if n < 10 {
        (48 + n) as char
    } else {
        (55 + n) as char
    }
}

/// The 8 bytes of `x`, lowest first, as upper-case hexadecimal pairs.
pub open spec fn le_hex(x: u64, k: nat) -> Seq<char>
    decreases k,
{
    if k == 0 {
        Seq::empty()
    } else {
        let b = ((x as int) / pow256((8 - k) as nat)) % 256;
        seq![hex_digit(b / 16), hex_digit(b % 16)] + le_hex(x, (k - 1) as nat)
    }
}

pub open spec fn pow256(n: nat) -> int
    decreases n,
{
    if n == 0 {
        1
    } else {
        256 * pow256((n - 1) as nat)
    }
}

fn hex_digit_str(n: u8) -> (r: &'static str)
    requires
        n < 16,
    ensures
        r@ == seq![hex_digit(n as int)],
{
    match n {
        0 => {
            proof {
                reveal_strlit("0");
            }
            "0"
        },
        1 => {
            proof {
                reveal_strlit("1");
            }
            "1"
        },
        2 => {
            proof {
                reveal_strlit("2");
            }
            "2"
        },
        3 => {
            proof {
                reveal_strlit("3");
            }
            "3"
        },
        4 => {
            proof {
                reveal_strlit("4");
            }
            "4"
        },
        5 => {
            proof {
                reveal_strlit("5");
            }
            "5"
        },
        6 => {
            proof {
                reveal_strlit("6");
            }
            "6"
        },
        7 => {
            proof {
                reveal_strlit("7");
            }
            "7"
        },
        8 => {
            proof {
                reveal_strlit("8");
            }
            "8"
        },
        9 => {
            proof {
                reveal_strlit("9");
            }
            "9"
        },
        10 => {
            proof {
                reveal_strlit("A");
            }
            "A"
        },
        11 => {
            proof {
                reveal_strlit("B");
            }
            "B"
        },
        12 => {
            proof {
                reveal_strlit("C");
            }
            "C"
        },
        13 => {
            proof {
                reveal_strlit("D");
            }
            "D"
        },
        14 => {
            proof {
                reveal_strlit("E");
            }
            "E"
        },
        _ => {
            proof {
                reveal_strlit("F");
            }
            "F"
        },
    }
}


/// The `n` lowest bytes of `x`, lowest first.
pub open spec fn le_bytes(x: u64, n: nat) -> Seq<u8> {
    Seq::new(n, |k: int| (x >> ((8 * k) as u64)) as u8)
}

/// Upper-case hexadecimal of bytes, two digits each, in order.
pub open spec fn bytes_hex(bs: Seq<u8>) -> Seq<char>
    decreases bs.len(),
{
    if bs.len() == 0 {
        Seq::empty()
    } else {
        bytes_hex(bs.drop_last()) + seq![
            hex_digit((bs.last() / 16) as int),
            hex_digit((bs.last() % 16) as int),
        ]
    }
}

/// Appends the `n` lowest bytes of `x`, lowest first.
pub fn push_le_bytes(out: &mut Vec<u8>, x: u64, n: u64)
    requires
        n <= 8,
    ensures
        final(out)@ == old(out)@ + le_bytes(x, n as nat),
{
    let ghost start = out@;
    let mut k: u64 = 0;
    while k < n
        invariant
            k <= n <= 8,
            out@ == start + le_bytes(x, k as nat),
        decreases n - k,
    {
        out.push((x >> (8 * k)) as u8);
        assert(le_bytes(x, (k + 1) as nat) =~= le_bytes(x, k as nat).push((x >> (8 * k)) as u8));
        k = k + 1;
    }
}

/// Appends the upper-case hexadecimal of the bytes.
pub fn push_bytes_hex(out: String, bs: &[u8]) -> (r: String)
    ensures
        r@ == out@ + bytes_hex(bs@),
{
    let mut out = out;
    let ghost start = out@;
    let mut i: usize = 0;
    assert(bs@.take(0) =~= Seq::<u8>::empty());
    while i < bs.len()
        invariant
            i <= bs@.len(),
            out@ == start + bytes_hex(bs@.take(i as int)),
        decreases bs@.len() - i,
    {
        let b = bs[i];
        assert(bs@.take(i + 1).drop_last() =~= bs@.take(i as int));
        out = out.concat(hex_digit_str(b / 16));
        out = out.concat(hex_digit_str(b % 16));
        assert(out@ =~= start + bytes_hex(bs@.take(i + 1)));
        i = i + 1;
    }
    assert(bs@.take(i as int) =~= bs@);
    out
}

fn push_le_hex(out: String, x: u64) -> (r: String)
    ensures
        r@ == out@ + le_hex(x, 8),
{
    let mut out = out;
    let mut rest = x;
    let mut k: u64 = 0;
    let ghost start = out@;
    while k < 8
        invariant
            k <= 8,
            rest == (x as int) / pow256(k as nat),
            out@ + le_hex(x, (8 - k) as nat) == start + le_hex(x, 8),
        decreases 8 - k,
    {
        let b = (rest % 256) as u8;
        assert(pow256((k + 1) as nat) == 256 * pow256(k as nat));
        assert(pow256(k as nat) > 0) by {
            lemma_pow256_pos(k as nat);
        }
        assert((x as int) / pow256((k + 1) as nat) == ((x as int) / pow256(k as nat)) / 256) by {
            vstd::arithmetic::div_mod::lemma_div_denominator(x as int, pow256(k as nat), 256);
        }
        let ghost before = out@;
        out = out.concat(hex_digit_str(b / 16));
        out = out.concat(hex_digit_str(b % 16));
        assert(le_hex(x, (8 - k) as nat) == seq![hex_digit((b / 16) as int), hex_digit((b % 16) as int)] + le_hex(
            x,
            (8 - k - 1) as nat,
        ));
        assert(out@ == before + seq![hex_digit((b / 16) as int), hex_digit((b % 16) as int)]);
        assert(out@ + le_hex(x, (8 - k - 1) as nat) =~= before + le_hex(x, (8 - k) as nat));
        rest = rest / 256;
        k = k + 1;
    }
    assert(le_hex(x, 0) =~= Seq::<char>::empty());
    assert(out@ =~= start + le_hex(x, 8));
    out
}

proof fn lemma_pow256_pos(n: nat)
    ensures
        pow256(n) > 0,
    decreases n,
{
    if n > 0 {
        lemma_pow256_pos((n - 1) as nat);
    }
}

impl GuidEventFields {
    /// The 16 GUID bytes in memory order (first half, then second half,
    /// each little-endian) as 32 upper-case hexadecimal digits.
    pub fn guid_hex(&self) -> (r: String)
        ensures
            r@ == le_hex(self.guid_first8, 8) + le_hex(self.guid_last8, 8),
    {
        let out = String::new();
        let out = push_le_hex(out, self.guid_first8);
        let out = push_le_hex(out, self.guid_last8);
        assert(out@ =~= le_hex(self.guid_first8, 8) + le_hex(self.guid_last8, 8));
        out
    }
}

/// Rows that are counted but not turned into events.
#[derive(Debug, Clone, Copy, PartialEq, Eq, PartialOrd, Ord, Structural)]
pub enum UnsupportedEventKind {
    Effect,
    Marker,
    SquadMarker,
    Transformation,
    Missile,
    WvWObjectiveStatus,
    GadgetCapture,
    GadgetAnimation,
    IgnoredByCs,
    Extension,
}

impl UnsupportedEventKind {
    pub open spec fn label_of(self) -> Seq<char> {
        match self {
            UnsupportedEventKind::Effect => "Effect"@,
            UnsupportedEventKind::Marker => "Marker"@,
            UnsupportedEventKind::SquadMarker => "SquadMarker"@,
            UnsupportedEventKind::Transformation => "Transformation"@,
            UnsupportedEventKind::Missile => "Missile"@,
            UnsupportedEventKind::WvWObjectiveStatus => "WvWObjectiveStatus"@,
            UnsupportedEventKind::GadgetCapture => "GadgetCapture"@,
            UnsupportedEventKind::GadgetAnimation => "GadgetAnimation"@,
            UnsupportedEventKind::IgnoredByCs => "IgnoredByCs"@,
            UnsupportedEventKind::Extension => "Extension"@,
        }
    }

    /// Name of the kind.
    pub fn label(self) -> (r: &'static str)
        ensures
            r@ == self.label_of(),
    {
        match self {
            UnsupportedEventKind::Effect => "Effect",
            UnsupportedEventKind::Marker => "Marker",
            UnsupportedEventKind::SquadMarker => "SquadMarker",
            UnsupportedEventKind::Transformation => "Transformation",
            UnsupportedEventKind::Missile => "Missile",
            UnsupportedEventKind::WvWObjectiveStatus => "WvWObjectiveStatus",
            UnsupportedEventKind::GadgetCapture => "GadgetCapture",
            UnsupportedEventKind::GadgetAnimation => "GadgetAnimation",
            UnsupportedEventKind::IgnoredByCs => "IgnoredByCs",
            UnsupportedEventKind::Extension => "Extension",
        }
    }
}

/// Payloads that carry their time.
pub trait EventTime {
    fn event_time(&self) -> i64;
}

impl EventTime for HealthDamageEventFields {
    fn event_time(&self) -> (r: i64)
        ensures
            r == self.skill.time,
    {
        self.skill.time
    }
}

impl EventTime for StatusEventFields {
    fn event_time(&self) -> (r: i64)
        ensures
            r == self.time,
    {
        self.time
    }
}

impl EventTime for CrowdControlEventFields {
    fn event_time(&self) -> (r: i64)
        ensures
            r == self.skill.time,
    {
        self.skill.time
    }
}

impl EventTime for StunBreakEventFields {
    fn event_time(&self) -> (r: i64)
        ensures
            r == self.skill.time,
    {
        self.skill.time
    }
}

impl EventTime for BuffApplyEventFields {
    fn event_time(&self) -> (r: i64)
        ensures
            r == self.apply.base.time,
    {
        self.apply.base.time
    }
}

impl EventTime for BuffExtensionEventFields {
    fn event_time(&self) -> (r: i64)
        ensures
            r == self.apply.base.time,
    {
        self.apply.base.time
    }
}

impl EventTime for BuffStackEventFields {
    fn event_time(&self) -> (r: i64)
        ensures
            r == self.base.time,
    {
        self.base.time
    }
}

impl EventTime for BuffStackDeactiveEventFields {
    fn event_time(&self) -> (r: i64)
        ensures
            r == self.stack.base.time,
    {
        self.stack.base.time
    }
}

impl EventTime for BuffRemoveBaseFields {
    fn event_time(&self) -> (r: i64)
        ensures
            r == self.base.time,
    {
        self.base.time
    }
}

impl EventTime for BuffRemoveSingleEventFields {
    fn event_time(&self) -> (r: i64)
        ensures
            r == self.remove.base.time,
    {
        self.remove.base.time
    }
}

impl EventTime for BuffRemoveAllEventFields {
    fn event_time(&self) -> (r: i64)
        ensures
            r == self.remove.base.time,
    {
        self.remove.base.time
    }
}

impl EventTime for WeaponSwapEventFields {
    fn event_time(&self) -> (r: i64)
        ensures
            r == self.time,
    {
        self.time
    }
}

impl EventTime for CombatStatusEventFields {
    fn event_time(&self) -> (r: i64)
        ensures
            r == self.base.time,
    {
        self.base.time
    }
}

impl EventTime for MaxHealthEventFields {
    fn event_time(&self) -> (r: i64)
        ensures
            r == self.base.time,
    {
        self.base.time
    }
}

impl EventTime for TeamChangeEventFields {
    fn event_time(&self) -> (r: i64)
        ensures
            r == self.base.time,
    {
        self.base.time
    }
}

impl EventTime for TargetableEventFields {
    fn event_time(&self) -> (r: i64)
        ensures
            r == self.base.time,
    {
        self.base.time
    }
}

impl EventTime for VisibilityEventFields {
    fn event_time(&self) -> (r: i64)
        ensures
            r == self.base.time,
    {
        self.base.time
    }
}

impl EventTime for BreakbarStateEventFields {
    fn event_time(&self) -> (r: i64)
        ensures
            r == self.base.time,
    {
        self.base.time
    }
}

impl EventTime for GliderEventFields {
    fn event_time(&self) -> (r: i64)
        ensures
            r == self.base.time,
    {
        self.base.time
    }
}

impl EventTime for Last90BeforeDownEventFields {
    fn event_time(&self) -> (r: i64)
        ensures
            r == self.base.time,
    {
        self.base.time
    }
}

impl EventTime for JumpEventFields {
    fn event_time(&self) -> (r: i64)
        ensures
            r == self.base.time,
    {
        self.base.time
    }
}

impl EventTime for InstanceStartEventFields {
    fn event_time(&self) -> (r: i64)
        ensures
            r == self.time,
    {
        self.time
    }
}

impl EventTime for MapIdEventFields {
    fn event_time(&self) -> (r: i64)
        ensures
            r == self.time,
    {
        self.time
    }
}

impl EventTime for MapChangeEventFields {
    fn event_time(&self) -> (r: i64)
        ensures
            r == self.time,
    {
        self.time
    }
}

impl EventTime for PointOfViewEventFields {
    fn event_time(&self) -> (r: i64)
        ensures
            r == self.time,
    {
        self.time
    }
}

impl EventTime for TickRateEventFields {
    fn event_time(&self) -> (r: i64)
        ensures
            r == self.time,
    {
        self.time
    }
}

impl EventTime for TickEventFields {
    fn event_time(&self) -> (r: i64)
        ensures
            r == self.time,
    {
        self.time
    }
}

impl EventTime for LogDateEventFields {
    fn event_time(&self) -> (r: i64)
        ensures
            r == self.time,
    {
        self.time
    }
}

impl EventTime for SquadCombatStartEventFields {
    fn event_time(&self) -> (r: i64)
        ensures
            r == self.date.time,
    {
        self.date.time
    }
}

impl EventTime for SquadCombatEndEventFields {
    fn event_time(&self) -> (r: i64)
        ensures
            r == self.date.time,
    {
        self.date.time
    }
}

impl EventTime for LogNpcUpdateEventFields {
    fn event_time(&self) -> (r: i64)
        ensures
            r == self.date.time,
    {
        self.date.time
    }
}

impl EventTime for RewardEventFields {
    fn event_time(&self) -> (r: i64)
        ensures
            r == self.time,
    {
        self.time
    }
}

impl EventTime for AttackTargetEventFields {
    fn event_time(&self) -> (r: i64)
        ensures
            r == self.time,
    {
        self.time
    }
}

pub open spec fn no_skill_hit() -> SkillEventFields {
    SkillEventFields {
        time: 0,
        from: 0,
        to: 0,
        skill_id: 0,
        iff: Iff::Unknown,
        is_over_ninety: false,
        against_under_fifty: false,
        is_moving: false,
        against_moving: false,
        is_flanking: false,
        against_downed: false,
    }
}

impl Default for HealthDamageEventFields {
    /// A hit of nothing: zero time, agents and amounts, unknown affiliation,
    /// no flag set.
    fn default() -> (r: Self)
        ensures
            r.skill == no_skill_hit(),
            r.health_damage == 0 && r.shield_damage == 0,
            !r.has_hit && !r.has_crit && !r.has_glanced && !r.is_life_leech && !r.is_blind,
            !r.is_absorbed && !r.is_blocked && !r.is_evaded && !r.is_not_a_damage_event,
            !r.has_interrupted && !r.has_downed && !r.has_killed,
    {
        HealthDamageEventFields {
            skill: SkillEventFields {
                time: 0,
                from: 0,
                to: 0,
                skill_id: 0,
                iff: Iff::Unknown,
                is_over_ninety: false,
                against_under_fifty: false,
                is_moving: false,
                against_moving: false,
                is_flanking: false,
                against_downed: false,
            },
            health_damage: 0,
            shield_damage: 0,
            has_hit: false,
            has_crit: false,
            has_glanced: false,
            is_life_leech: false,
            is_blind: false,
            is_absorbed: false,
            is_blocked: false,
            is_evaded: false,
            is_not_a_damage_event: false,
            has_interrupted: false,
            has_downed: false,
            has_killed: false,
        }
    }
}


/// The weapon swap pseudo skill, -2, as an unsigned 32-bit id.
pub const WEAPON_SWAP_ID: u32 = 4294967294u32;

/// A defiance bar hit or recovery. The value is in tenths of a point: the
/// row's value read as a tenth.
#[derive(Debug, Clone, Copy, PartialEq, Eq, Structural)]
pub struct BreakbarEventFields {
    pub skill: SkillEventFields,
    pub value_tenths: i32,
}

/// A health or barrier update, in hundredths of a percent.
#[derive(Debug, Clone, Copy, PartialEq, Eq, Structural)]
pub struct HealthPercentEventFields {
    pub base: StatusEventFields,
    pub percent_hundredths: u64,
}

/// A defiance bar fill update: the fraction in `[0, 1]` as the bit pattern
/// of a 32-bit float, as the row holds it.
#[derive(Debug, Clone, Copy, PartialEq, Eq, Structural)]
pub struct BreakbarPercentEventFields {
    pub base: StatusEventFields,
    pub fraction_bits: u32,
}

/// A position, rotation, velocity or teleport: three coordinates as bit
/// patterns of 32-bit floats, all finite.
#[derive(Debug, Clone, Copy, PartialEq, Eq, Structural)]
pub struct MovementEventFields {
    pub base: StatusEventFields,
    pub x_bits: u32,
    pub y_bits: u32,
    pub z_bits: u32,
}

/// Where an effect stands.
#[derive(Debug, Clone, Copy, PartialEq, Eq, Structural)]
pub enum EffectPosition {
    /// Around its destination agent.
    OnAgent,
    /// Ground coordinates that are whole numbers.
    Whole { x: i32, y: i32, z: i32 },
    /// Ground coordinates as bit patterns of 32-bit floats.
    Bits { x: u32, y: u32, z: u32 },
}

/// A visual effect.
#[derive(Debug, Clone, Copy, PartialEq, Eq, Structural)]
pub struct EffectEventFields {
    pub time: i64,
    pub src: u64,
    /// The agent the effect is on; 0 for a ground effect.
    pub dst: u64,
    pub effect_id: u32,
    pub duration: i64,
    /// Time of the matching end row, once one is seen.
    pub end_time: Option<i64>,
    pub tracking_id: u32,
    pub cbts45: bool,
    pub position: EffectPosition,
}

/// A cast animation. When `scaled_actual_duration` is positive the
/// animation ran at another speed: `expected_duration`, and for a
/// `Reduced` cast `saved_duration`, are then on the unscaled time line, and
/// the speed is still to be applied to them.
#[derive(Debug, Clone, Copy, PartialEq, Eq, Structural)]
pub struct AnimatedCastEventFields {
    pub time: i64,
    pub skill_id: u32,
    pub caster: u64,
    pub effect_target: u64,
    pub anim_start: AnimationStart,
    pub anim_stop: AnimationStop,
    pub status: AnimationStatus,
    pub saved_duration: i32,
    pub expected_duration: i32,
    pub actual_duration: i32,
    pub scaled_actual_duration: i32,
}

/// An emote.
#[derive(Debug, Clone, Copy, PartialEq, Eq, Structural)]
pub struct EmoteEventFields {
    pub base: AnimatedCastEventFields,
    pub emote_id: u64,
}

/// A bundle picked up.
#[derive(Debug, Clone, Copy, PartialEq, Eq, Structural)]
pub struct BundlePickUpEventFields {
    pub base: AnimatedCastEventFields,
    pub bundle_id: u64,
}

/// A buff formula. Whole-number fields are the 32-bit floats of the row
/// converted as Rust's `as` converts (toward zero, saturating, NaN to 0);
/// the others keep the float's bit pattern.
#[derive(Debug, Clone, Copy, PartialEq, Eq, Structural)]
pub struct BuffFormulaRowFields {
    pub formula_type: i32,
    pub byte_attr1: u8,
    pub byte_attr2: u8,
    pub constant_offset_bits: u32,
    pub level_offset_bits: u32,
    pub variable_bits: u32,
    pub trait_src: i32,
    pub trait_self: i32,
    pub content_reference_bits: u32,
    pub buff_src: i32,
    pub buff_self: i32,
    pub extra_number: u32,
    pub extra_number_state: u8,
    pub npc: bool,
    pub player: bool,
    pub is_break: bool,
}

/// Static information on a buff and its formulas, in row order.
#[derive(Debug, Clone)]
pub struct BuffInfoEventFields {
    pub buff_id: u32,
    pub info: Option<BuffInfoRowFields>,
    pub formulas: Vec<BuffFormulaRowFields>,
}

/// Static information on a skill: four 32-bit floats as bit patterns, and
/// its timed actions in row order.
#[derive(Debug, Clone)]
pub struct SkillInfoEventFields {
    pub skill_id: u32,
    pub recharge_bits: u32,
    pub range0_bits: u32,
    pub range1_bits: u32,
    pub tooltip_time_bits: u32,
    pub timings: Vec<SkillTimingRowFields>,
}

/// A typed event of the log.
#[derive(Debug, Clone)]
pub enum CombatEvent {
    DirectHealthDamage(HealthDamageEventFields),
    NonDirectHealthDamage(HealthDamageEventFields),
    NoDamageHealthDamage(HealthDamageEventFields),
    BreakbarDamage(BreakbarEventFields),
    BreakbarRecovery(BreakbarEventFields),
    CrowdControl(CrowdControlEventFields),
    StunBreak(StunBreakEventFields),
    BuffApply(BuffApplyEventFields),
    BuffExtension(BuffExtensionEventFields),
    BuffStackActive(BuffStackEventFields),
    BuffStackDeactive(BuffStackDeactiveEventFields),
    BuffRemoveSingle(BuffRemoveSingleEventFields),
    BuffRemoveAll(BuffRemoveAllEventFields),
    BuffRemoveManual(BuffRemoveBaseFields),
    AnimatedCast(AnimatedCastEventFields),
    Emote(EmoteEventFields),
    GadgetInteract(AnimatedCastEventFields),
    BundlePickUp(BundlePickUpEventFields),
    WeaponSwap(WeaponSwapEventFields),
    EnterCombat(CombatStatusEventFields),
    ExitCombat(CombatStatusEventFields),
    Alive(StatusEventFields),
    Dead(StatusEventFields),
    Down(StatusEventFields),
    Spawn(StatusEventFields),
    Despawn(StatusEventFields),
    HealthUpdate(HealthPercentEventFields),
    BarrierUpdate(HealthPercentEventFields),
    MaxHealthUpdate(MaxHealthEventFields),
    TeamChange(TeamChangeEventFields),
    Targetable(TargetableEventFields),
    Visibility(VisibilityEventFields),
    BreakbarState(BreakbarStateEventFields),
    BreakbarPercent(BreakbarPercentEventFields),
    Glider(GliderEventFields),
    Last90BeforeDown(Last90BeforeDownEventFields),
    Position(MovementEventFields),
    Rotation(MovementEventFields),
    Velocity(MovementEventFields),
    Teleport(MovementEventFields),
    Jump(JumpEventFields),
    Effect(EffectEventFields),
    Missile(MissileEventFields),
    InstanceStart(InstanceStartEventFields),
    Language(LanguageEventFields),
    Gw2Build(Gw2BuildEventFields),
    Shard(ShardEventFields),
    MapId(MapIdEventFields),
    MapChange(MapChangeEventFields),
    PointOfView(PointOfViewEventFields),
    FractalScale(FractalScaleEventFields),
    WvWTeams(WvWTeamsEventFields),
    TickRate(TickRateEventFields),
    Tick(TickEventFields),
    ErrorEvent(ErrorEventFields),
    SquadCombatStart(SquadCombatStartEventFields),
    SquadCombatEnd(SquadCombatEndEventFields),
    LogNpcUpdate(LogNpcUpdateEventFields),
    Reward(RewardEventFields),
    Guild(GuildEventFields),
    AttackTarget(AttackTargetEventFields),
    GuidEffect(GuidEventFields),
    GuidMarker(GuidEventFields),
    GuidSkill(GuidEventFields),
    GuidSpecies(GuidEventFields),
    GuidTeam(GuidEventFields),
    GuidEmote(GuidEventFields),
    GuidTransformation(GuidEventFields),
}

impl CombatEvent {
    /// Time of the event; metadata without a time has none.
    pub open spec fn time_of(&self) -> Option<i64> {
        match self {
            CombatEvent::DirectHealthDamage(e) => Some(e.skill.time),
            CombatEvent::NonDirectHealthDamage(e) => Some(e.skill.time),
            CombatEvent::NoDamageHealthDamage(e) => Some(e.skill.time),
            CombatEvent::BreakbarDamage(e) => Some(e.skill.time),
            CombatEvent::BreakbarRecovery(e) => Some(e.skill.time),
            CombatEvent::CrowdControl(e) => Some(e.skill.time),
            CombatEvent::StunBreak(e) => Some(e.skill.time),
            CombatEvent::BuffApply(e) => Some(e.apply.base.time),
            CombatEvent::BuffExtension(e) => Some(e.apply.base.time),
            CombatEvent::BuffStackActive(e) => Some(e.base.time),
            CombatEvent::BuffStackDeactive(e) => Some(e.stack.base.time),
            CombatEvent::BuffRemoveSingle(e) => Some(e.remove.base.time),
            CombatEvent::BuffRemoveAll(e) => Some(e.remove.base.time),
            CombatEvent::BuffRemoveManual(e) => Some(e.base.time),
            CombatEvent::AnimatedCast(e) => Some(e.time),
            CombatEvent::Emote(e) => Some(e.base.time),
            CombatEvent::GadgetInteract(e) => Some(e.time),
            CombatEvent::BundlePickUp(e) => Some(e.base.time),
            CombatEvent::WeaponSwap(e) => Some(e.time),
            CombatEvent::EnterCombat(e) => Some(e.base.time),
            CombatEvent::ExitCombat(e) => Some(e.base.time),
            CombatEvent::Alive(e) => Some(e.time),
            CombatEvent::Dead(e) => Some(e.time),
            CombatEvent::Down(e) => Some(e.time),
            CombatEvent::Spawn(e) => Some(e.time),
            CombatEvent::Despawn(e) => Some(e.time),
            CombatEvent::HealthUpdate(e) => Some(e.base.time),
            CombatEvent::BarrierUpdate(e) => Some(e.base.time),
            CombatEvent::MaxHealthUpdate(e) => Some(e.base.time),
            CombatEvent::TeamChange(e) => Some(e.base.time),
            CombatEvent::Targetable(e) => Some(e.base.time),
            CombatEvent::Visibility(e) => Some(e.base.time),
            CombatEvent::BreakbarState(e) => Some(e.base.time),
            CombatEvent::BreakbarPercent(e) => Some(e.base.time),
            CombatEvent::Glider(e) => Some(e.base.time),
            CombatEvent::Last90BeforeDown(e) => Some(e.base.time),
            CombatEvent::Position(e) => Some(e.base.time),
            CombatEvent::Rotation(e) => Some(e.base.time),
            CombatEvent::Velocity(e) => Some(e.base.time),
            CombatEvent::Teleport(e) => Some(e.base.time),
            CombatEvent::Jump(e) => Some(e.base.time),
            CombatEvent::Effect(e) => Some(e.time),
            CombatEvent::Missile(e) => Some(e.time),
            CombatEvent::InstanceStart(e) => Some(e.time),
            CombatEvent::Language(_) => None,
            CombatEvent::Gw2Build(_) => None,
            CombatEvent::Shard(_) => None,
            CombatEvent::MapId(e) => Some(e.time),
            CombatEvent::MapChange(e) => Some(e.time),
            CombatEvent::PointOfView(e) => Some(e.time),
            CombatEvent::FractalScale(_) => None,
            CombatEvent::WvWTeams(_) => None,
            CombatEvent::TickRate(e) => Some(e.time),
            CombatEvent::Tick(e) => Some(e.time),
            CombatEvent::ErrorEvent(_) => None,
            CombatEvent::SquadCombatStart(e) => Some(e.date.time),
            CombatEvent::SquadCombatEnd(e) => Some(e.date.time),
            CombatEvent::LogNpcUpdate(e) => Some(e.date.time),
            CombatEvent::Reward(e) => Some(e.time),
            CombatEvent::Guild(_) => None,
            CombatEvent::AttackTarget(e) => Some(e.time),
            CombatEvent::GuidEffect(_) => None,
            CombatEvent::GuidMarker(_) => None,
            CombatEvent::GuidSkill(_) => None,
            CombatEvent::GuidSpecies(_) => None,
            CombatEvent::GuidTeam(_) => None,
            CombatEvent::GuidEmote(_) => None,
            CombatEvent::GuidTransformation(_) => None,
        }
    }

    /// Time of the event; metadata without a time has none.
    pub fn time(&self) -> (r: Option<i64>)
        ensures
            r == self.time_of(),
    {
        match self {
            CombatEvent::DirectHealthDamage(e) => Some(e.skill.time),
            CombatEvent::NonDirectHealthDamage(e) => Some(e.skill.time),
            CombatEvent::NoDamageHealthDamage(e) => Some(e.skill.time),
            CombatEvent::BreakbarDamage(e) => Some(e.skill.time),
            CombatEvent::BreakbarRecovery(e) => Some(e.skill.time),
            CombatEvent::CrowdControl(e) => Some(e.skill.time),
            CombatEvent::StunBreak(e) => Some(e.skill.time),
            CombatEvent::BuffApply(e) => Some(e.apply.base.time),
            CombatEvent::BuffExtension(e) => Some(e.apply.base.time),
            CombatEvent::BuffStackActive(e) => Some(e.base.time),
            CombatEvent::BuffStackDeactive(e) => Some(e.stack.base.time),
            CombatEvent::BuffRemoveSingle(e) => Some(e.remove.base.time),
            CombatEvent::BuffRemoveAll(e) => Some(e.remove.base.time),
            CombatEvent::BuffRemoveManual(e) => Some(e.base.time),
            CombatEvent::AnimatedCast(e) => Some(e.time),
            CombatEvent::Emote(e) => Some(e.base.time),
            CombatEvent::GadgetInteract(e) => Some(e.time),
            CombatEvent::BundlePickUp(e) => Some(e.base.time),
            CombatEvent::WeaponSwap(e) => Some(e.time),
            CombatEvent::EnterCombat(e) => Some(e.base.time),
            CombatEvent::ExitCombat(e) => Some(e.base.time),
            CombatEvent::Alive(e) => Some(e.time),
            CombatEvent::Dead(e) => Some(e.time),
            CombatEvent::Down(e) => Some(e.time),
            CombatEvent::Spawn(e) => Some(e.time),
            CombatEvent::Despawn(e) => Some(e.time),
            CombatEvent::HealthUpdate(e) => Some(e.base.time),
            CombatEvent::BarrierUpdate(e) => Some(e.base.time),
            CombatEvent::MaxHealthUpdate(e) => Some(e.base.time),
            CombatEvent::TeamChange(e) => Some(e.base.time),
            CombatEvent::Targetable(e) => Some(e.base.time),
            CombatEvent::Visibility(e) => Some(e.base.time),
            CombatEvent::BreakbarState(e) => Some(e.base.time),
            CombatEvent::BreakbarPercent(e) => Some(e.base.time),
            CombatEvent::Glider(e) => Some(e.base.time),
            CombatEvent::Last90BeforeDown(e) => Some(e.base.time),
            CombatEvent::Position(e) => Some(e.base.time),
            CombatEvent::Rotation(e) => Some(e.base.time),
            CombatEvent::Velocity(e) => Some(e.base.time),
            CombatEvent::Teleport(e) => Some(e.base.time),
            CombatEvent::Jump(e) => Some(e.base.time),
            CombatEvent::Effect(e) => Some(e.time),
            CombatEvent::Missile(e) => Some(e.time),
            CombatEvent::InstanceStart(e) => Some(e.time),
            CombatEvent::Language(_) => None,
            CombatEvent::Gw2Build(_) => None,
            CombatEvent::Shard(_) => None,
            CombatEvent::MapId(e) => Some(e.time),
            CombatEvent::MapChange(e) => Some(e.time),
            CombatEvent::PointOfView(e) => Some(e.time),
            CombatEvent::FractalScale(_) => None,
            CombatEvent::WvWTeams(_) => None,
            CombatEvent::TickRate(e) => Some(e.time),
            CombatEvent::Tick(e) => Some(e.time),
            CombatEvent::ErrorEvent(_) => None,
            CombatEvent::SquadCombatStart(e) => Some(e.date.time),
            CombatEvent::SquadCombatEnd(e) => Some(e.date.time),
            CombatEvent::LogNpcUpdate(e) => Some(e.date.time),
            CombatEvent::Reward(e) => Some(e.time),
            CombatEvent::Guild(_) => None,
            CombatEvent::AttackTarget(e) => Some(e.time),
            CombatEvent::GuidEffect(_) => None,
            CombatEvent::GuidMarker(_) => None,
            CombatEvent::GuidSkill(_) => None,
            CombatEvent::GuidSpecies(_) => None,
            CombatEvent::GuidTeam(_) => None,
            CombatEvent::GuidEmote(_) => None,
            CombatEvent::GuidTransformation(_) => None,
        }
    }

    /// The agents of the event: source or caster side first, target or second
    /// side next, 0 where there is none.
    pub open spec fn participants_of(&self) -> (u64, u64) {
        match self {
            CombatEvent::DirectHealthDamage(e) => (e.skill.from, e.skill.to),
            CombatEvent::NonDirectHealthDamage(e) => (e.skill.from, e.skill.to),
            CombatEvent::NoDamageHealthDamage(e) => (e.skill.from, e.skill.to),
            CombatEvent::BreakbarDamage(e) => (e.skill.from, e.skill.to),
            CombatEvent::BreakbarRecovery(e) => (e.skill.from, e.skill.to),
            CombatEvent::CrowdControl(e) => (e.skill.from, e.skill.to),
            CombatEvent::StunBreak(e) => (e.skill.from, e.skill.to),
            CombatEvent::BuffApply(e) => (e.apply.base.by, e.apply.base.to),
            CombatEvent::BuffExtension(e) => (e.apply.base.by, e.apply.base.to),
            CombatEvent::BuffStackActive(e) => (e.base.to, e.base.by),
            CombatEvent::BuffStackDeactive(e) => (e.stack.base.to, e.stack.base.by),
            CombatEvent::BuffRemoveSingle(e) => (e.remove.base.by, e.remove.base.to),
            CombatEvent::BuffRemoveAll(e) => (e.remove.base.by, e.remove.base.to),
            CombatEvent::BuffRemoveManual(e) => (e.base.by, e.base.to),
            CombatEvent::AnimatedCast(e) => (e.caster, e.effect_target),
            CombatEvent::Emote(e) => (e.base.caster, e.base.effect_target),
            CombatEvent::GadgetInteract(e) => (e.caster, e.effect_target),
            CombatEvent::BundlePickUp(e) => (e.base.caster, e.base.effect_target),
            CombatEvent::WeaponSwap(e) => (e.caster, 0),
            CombatEvent::EnterCombat(e) => (e.base.src, 0),
            CombatEvent::ExitCombat(e) => (e.base.src, 0),
            CombatEvent::Alive(e) => (e.src, 0),
            CombatEvent::Dead(e) => (e.src, 0),
            CombatEvent::Down(e) => (e.src, 0),
            CombatEvent::Spawn(e) => (e.src, 0),
            CombatEvent::Despawn(e) => (e.src, 0),
            CombatEvent::HealthUpdate(e) => (e.base.src, 0),
            CombatEvent::BarrierUpdate(e) => (e.base.src, 0),
            CombatEvent::MaxHealthUpdate(e) => (e.base.src, 0),
            CombatEvent::TeamChange(e) => (e.base.src, 0),
            CombatEvent::Targetable(e) => (e.base.src, 0),
            CombatEvent::Visibility(e) => (e.base.src, 0),
            CombatEvent::BreakbarState(e) => (e.base.src, 0),
            CombatEvent::BreakbarPercent(e) => (e.base.src, 0),
            CombatEvent::Glider(e) => (e.base.src, 0),
            CombatEvent::Last90BeforeDown(e) => (e.base.src, 0),
            CombatEvent::Position(e) => (e.base.src, 0),
            CombatEvent::Rotation(e) => (e.base.src, 0),
            CombatEvent::Velocity(e) => (e.base.src, 0),
            CombatEvent::Teleport(e) => (e.base.src, 0),
            CombatEvent::Jump(e) => (e.base.src, 0),
            CombatEvent::Effect(e) => (e.src, e.dst),
            CombatEvent::Missile(e) => (e.src, 0),
            CombatEvent::InstanceStart(_) => (0, 0),
            CombatEvent::Language(_) => (0, 0),
            CombatEvent::Gw2Build(_) => (0, 0),
            CombatEvent::Shard(_) => (0, 0),
            CombatEvent::MapId(_) => (0, 0),
            CombatEvent::MapChange(_) => (0, 0),
            CombatEvent::PointOfView(e) => (e.pov, 0),
            CombatEvent::FractalScale(_) => (0, 0),
            CombatEvent::WvWTeams(_) => (0, 0),
            CombatEvent::TickRate(_) => (0, 0),
            CombatEvent::Tick(_) => (0, 0),
            CombatEvent::ErrorEvent(_) => (0, 0),
            CombatEvent::SquadCombatStart(_) => (0, 0),
            CombatEvent::SquadCombatEnd(_) => (0, 0),
            CombatEvent::LogNpcUpdate(_) => (0, 0),
            CombatEvent::Reward(_) => (0, 0),
            CombatEvent::Guild(e) => (e.src, 0),
            CombatEvent::AttackTarget(e) => (e.src, e.attack_target),
            CombatEvent::GuidEffect(_) => (0, 0),
            CombatEvent::GuidMarker(_) => (0, 0),
            CombatEvent::GuidSkill(_) => (0, 0),
            CombatEvent::GuidSpecies(_) => (0, 0),
            CombatEvent::GuidTeam(_) => (0, 0),
            CombatEvent::GuidEmote(_) => (0, 0),
            CombatEvent::GuidTransformation(_) => (0, 0),
        }
    }

    /// The agents of the event: source or caster side first, target or second
    /// side next, 0 where there is none.
    pub fn participants(&self) -> (r: (u64, u64))
        ensures
            r == self.participants_of(),
    {
        match self {
            CombatEvent::DirectHealthDamage(e) => (e.skill.from, e.skill.to),
            CombatEvent::NonDirectHealthDamage(e) => (e.skill.from, e.skill.to),
            CombatEvent::NoDamageHealthDamage(e) => (e.skill.from, e.skill.to),
            CombatEvent::BreakbarDamage(e) => (e.skill.from, e.skill.to),
            CombatEvent::BreakbarRecovery(e) => (e.skill.from, e.skill.to),
            CombatEvent::CrowdControl(e) => (e.skill.from, e.skill.to),
            CombatEvent::StunBreak(e) => (e.skill.from, e.skill.to),
            CombatEvent::BuffApply(e) => (e.apply.base.by, e.apply.base.to),
            CombatEvent::BuffExtension(e) => (e.apply.base.by, e.apply.base.to),
            CombatEvent::BuffStackActive(e) => (e.base.to, e.base.by),
            CombatEvent::BuffStackDeactive(e) => (e.stack.base.to, e.stack.base.by),
            CombatEvent::BuffRemoveSingle(e) => (e.remove.base.by, e.remove.base.to),
            CombatEvent::BuffRemoveAll(e) => (e.remove.base.by, e.remove.base.to),
            CombatEvent::BuffRemoveManual(e) => (e.base.by, e.base.to),
            CombatEvent::AnimatedCast(e) => (e.caster, e.effect_target),
            CombatEvent::Emote(e) => (e.base.caster, e.base.effect_target),
            CombatEvent::GadgetInteract(e) => (e.caster, e.effect_target),
            CombatEvent::BundlePickUp(e) => (e.base.caster, e.base.effect_target),
            CombatEvent::WeaponSwap(e) => (e.caster, 0),
            CombatEvent::EnterCombat(e) => (e.base.src, 0),
            CombatEvent::ExitCombat(e) => (e.base.src, 0),
            CombatEvent::Alive(e) => (e.src, 0),
            CombatEvent::Dead(e) => (e.src, 0),
            CombatEvent::Down(e) => (e.src, 0),
            CombatEvent::Spawn(e) => (e.src, 0),
            CombatEvent::Despawn(e) => (e.src, 0),
            CombatEvent::HealthUpdate(e) => (e.base.src, 0),
            CombatEvent::BarrierUpdate(e) => (e.base.src, 0),
            CombatEvent::MaxHealthUpdate(e) => (e.base.src, 0),
            CombatEvent::TeamChange(e) => (e.base.src, 0),
            CombatEvent::Targetable(e) => (e.base.src, 0),
            CombatEvent::Visibility(e) => (e.base.src, 0),
            CombatEvent::BreakbarState(e) => (e.base.src, 0),
            CombatEvent::BreakbarPercent(e) => (e.base.src, 0),
            CombatEvent::Glider(e) => (e.base.src, 0),
            CombatEvent::Last90BeforeDown(e) => (e.base.src, 0),
            CombatEvent::Position(e) => (e.base.src, 0),
            CombatEvent::Rotation(e) => (e.base.src, 0),
            CombatEvent::Velocity(e) => (e.base.src, 0),
            CombatEvent::Teleport(e) => (e.base.src, 0),
            CombatEvent::Jump(e) => (e.base.src, 0),
            CombatEvent::Effect(e) => (e.src, e.dst),
            CombatEvent::Missile(e) => (e.src, 0),
            CombatEvent::InstanceStart(_) => (0, 0),
            CombatEvent::Language(_) => (0, 0),
            CombatEvent::Gw2Build(_) => (0, 0),
            CombatEvent::Shard(_) => (0, 0),
            CombatEvent::MapId(_) => (0, 0),
            CombatEvent::MapChange(_) => (0, 0),
            CombatEvent::PointOfView(e) => (e.pov, 0),
            CombatEvent::FractalScale(_) => (0, 0),
            CombatEvent::WvWTeams(_) => (0, 0),
            CombatEvent::TickRate(_) => (0, 0),
            CombatEvent::Tick(_) => (0, 0),
            CombatEvent::ErrorEvent(_) => (0, 0),
            CombatEvent::SquadCombatStart(_) => (0, 0),
            CombatEvent::SquadCombatEnd(_) => (0, 0),
            CombatEvent::LogNpcUpdate(_) => (0, 0),
            CombatEvent::Reward(_) => (0, 0),
            CombatEvent::Guild(e) => (e.src, 0),
            CombatEvent::AttackTarget(e) => (e.src, e.attack_target),
            CombatEvent::GuidEffect(_) => (0, 0),
            CombatEvent::GuidMarker(_) => (0, 0),
            CombatEvent::GuidSkill(_) => (0, 0),
            CombatEvent::GuidSpecies(_) => (0, 0),
            CombatEvent::GuidTeam(_) => (0, 0),
            CombatEvent::GuidEmote(_) => (0, 0),
            CombatEvent::GuidTransformation(_) => (0, 0),
        }
    }

    /// The skill or buff the event is about, where it has one.
    pub open spec fn related_id_of(&self) -> Option<u32> {
        match self {
            CombatEvent::DirectHealthDamage(e) => Some(e.skill.skill_id),
            CombatEvent::NonDirectHealthDamage(e) => Some(e.skill.skill_id),
            CombatEvent::NoDamageHealthDamage(e) => Some(e.skill.skill_id),
            CombatEvent::BreakbarDamage(e) => Some(e.skill.skill_id),
            CombatEvent::BreakbarRecovery(e) => Some(e.skill.skill_id),
            CombatEvent::CrowdControl(e) => Some(e.skill.skill_id),
            CombatEvent::StunBreak(e) => Some(e.skill.skill_id),
            CombatEvent::BuffApply(e) => Some(e.apply.base.buff_id),
            CombatEvent::BuffExtension(e) => Some(e.apply.base.buff_id),
            CombatEvent::BuffStackActive(e) => Some(e.base.buff_id),
            CombatEvent::BuffStackDeactive(e) => Some(e.stack.base.buff_id),
            CombatEvent::BuffRemoveSingle(e) => Some(e.remove.base.buff_id),
            CombatEvent::BuffRemoveAll(e) => Some(e.remove.base.buff_id),
            CombatEvent::BuffRemoveManual(e) => Some(e.base.buff_id),
            CombatEvent::AnimatedCast(e) => Some(e.skill_id),
            CombatEvent::Emote(e) => Some(e.base.skill_id),
            CombatEvent::GadgetInteract(e) => Some(e.skill_id),
            CombatEvent::BundlePickUp(e) => Some(e.base.skill_id),
            CombatEvent::WeaponSwap(_) => Some(WEAPON_SWAP_ID),
            CombatEvent::EnterCombat(_) => None,
            CombatEvent::ExitCombat(_) => None,
            CombatEvent::Alive(_) => None,
            CombatEvent::Dead(_) => None,
            CombatEvent::Down(_) => None,
            CombatEvent::Spawn(_) => None,
            CombatEvent::Despawn(_) => None,
            CombatEvent::HealthUpdate(_) => None,
            CombatEvent::BarrierUpdate(_) => None,
            CombatEvent::MaxHealthUpdate(_) => None,
            CombatEvent::TeamChange(_) => None,
            CombatEvent::Targetable(_) => None,
            CombatEvent::Visibility(_) => None,
            CombatEvent::BreakbarState(_) => None,
            CombatEvent::BreakbarPercent(_) => None,
            CombatEvent::Glider(_) => None,
            CombatEvent::Last90BeforeDown(_) => None,
            CombatEvent::Position(_) => None,
            CombatEvent::Rotation(_) => None,
            CombatEvent::Velocity(_) => None,
            CombatEvent::Teleport(_) => None,
            CombatEvent::Jump(_) => None,
            CombatEvent::Effect(_) => None,
            CombatEvent::Missile(_) => None,
            CombatEvent::InstanceStart(_) => None,
            CombatEvent::Language(_) => None,
            CombatEvent::Gw2Build(_) => None,
            CombatEvent::Shard(_) => None,
            CombatEvent::MapId(_) => None,
            CombatEvent::MapChange(_) => None,
            CombatEvent::PointOfView(_) => None,
            CombatEvent::FractalScale(_) => None,
            CombatEvent::WvWTeams(_) => None,
            CombatEvent::TickRate(_) => None,
            CombatEvent::Tick(_) => None,
            CombatEvent::ErrorEvent(_) => None,
            CombatEvent::SquadCombatStart(_) => None,
            CombatEvent::SquadCombatEnd(_) => None,
            CombatEvent::LogNpcUpdate(_) => None,
            CombatEvent::Reward(_) => None,
            CombatEvent::Guild(_) => None,
            CombatEvent::AttackTarget(_) => None,
            CombatEvent::GuidEffect(_) => None,
            CombatEvent::GuidMarker(_) => None,
            CombatEvent::GuidSkill(_) => None,
            CombatEvent::GuidSpecies(_) => None,
            CombatEvent::GuidTeam(_) => None,
            CombatEvent::GuidEmote(_) => None,
            CombatEvent::GuidTransformation(_) => None,
        }
    }

    /// The skill or buff the event is about, where it has one.
    pub fn related_id(&self) -> (r: Option<u32>)
        ensures
            r == self.related_id_of(),
    {
        match self {
            CombatEvent::DirectHealthDamage(e) => Some(e.skill.skill_id),
            CombatEvent::NonDirectHealthDamage(e) => Some(e.skill.skill_id),
            CombatEvent::NoDamageHealthDamage(e) => Some(e.skill.skill_id),
            CombatEvent::BreakbarDamage(e) => Some(e.skill.skill_id),
            CombatEvent::BreakbarRecovery(e) => Some(e.skill.skill_id),
            CombatEvent::CrowdControl(e) => Some(e.skill.skill_id),
            CombatEvent::StunBreak(e) => Some(e.skill.skill_id),
            CombatEvent::BuffApply(e) => Some(e.apply.base.buff_id),
            CombatEvent::BuffExtension(e) => Some(e.apply.base.buff_id),
            CombatEvent::BuffStackActive(e) => Some(e.base.buff_id),
            CombatEvent::BuffStackDeactive(e) => Some(e.stack.base.buff_id),
            CombatEvent::BuffRemoveSingle(e) => Some(e.remove.base.buff_id),
            CombatEvent::BuffRemoveAll(e) => Some(e.remove.base.buff_id),
            CombatEvent::BuffRemoveManual(e) => Some(e.base.buff_id),
            CombatEvent::AnimatedCast(e) => Some(e.skill_id),
            CombatEvent::Emote(e) => Some(e.base.skill_id),
            CombatEvent::GadgetInteract(e) => Some(e.skill_id),
            CombatEvent::BundlePickUp(e) => Some(e.base.skill_id),
            CombatEvent::WeaponSwap(_) => Some(WEAPON_SWAP_ID),
            CombatEvent::EnterCombat(_) => None,
            CombatEvent::ExitCombat(_) => None,
            CombatEvent::Alive(_) => None,
            CombatEvent::Dead(_) => None,
            CombatEvent::Down(_) => None,
            CombatEvent::Spawn(_) => None,
            CombatEvent::Despawn(_) => None,
            CombatEvent::HealthUpdate(_) => None,
            CombatEvent::BarrierUpdate(_) => None,
            CombatEvent::MaxHealthUpdate(_) => None,
            CombatEvent::TeamChange(_) => None,
            CombatEvent::Targetable(_) => None,
            CombatEvent::Visibility(_) => None,
            CombatEvent::BreakbarState(_) => None,
            CombatEvent::BreakbarPercent(_) => None,
            CombatEvent::Glider(_) => None,
            CombatEvent::Last90BeforeDown(_) => None,
            CombatEvent::Position(_) => None,
            CombatEvent::Rotation(_) => None,
            CombatEvent::Velocity(_) => None,
            CombatEvent::Teleport(_) => None,
            CombatEvent::Jump(_) => None,
            CombatEvent::Effect(_) => None,
            CombatEvent::Missile(_) => None,
            CombatEvent::InstanceStart(_) => None,
            CombatEvent::Language(_) => None,
            CombatEvent::Gw2Build(_) => None,
            CombatEvent::Shard(_) => None,
            CombatEvent::MapId(_) => None,
            CombatEvent::MapChange(_) => None,
            CombatEvent::PointOfView(_) => None,
            CombatEvent::FractalScale(_) => None,
            CombatEvent::WvWTeams(_) => None,
            CombatEvent::TickRate(_) => None,
            CombatEvent::Tick(_) => None,
            CombatEvent::ErrorEvent(_) => None,
            CombatEvent::SquadCombatStart(_) => None,
            CombatEvent::SquadCombatEnd(_) => None,
            CombatEvent::LogNpcUpdate(_) => None,
            CombatEvent::Reward(_) => None,
            CombatEvent::Guild(_) => None,
            CombatEvent::AttackTarget(_) => None,
            CombatEvent::GuidEffect(_) => None,
            CombatEvent::GuidMarker(_) => None,
            CombatEvent::GuidSkill(_) => None,
            CombatEvent::GuidSpecies(_) => None,
            CombatEvent::GuidTeam(_) => None,
            CombatEvent::GuidEmote(_) => None,
            CombatEvent::GuidTransformation(_) => None,
        }
    }
}



impl EventTime for BreakbarEventFields {
    fn event_time(&self) -> (r: i64)
        ensures
            r == self.skill.time,
    {
        self.skill.time
    }
}

impl EventTime for AnimatedCastEventFields {
    fn event_time(&self) -> (r: i64)
        ensures
            r == self.time,
    {
        self.time
    }
}

impl EventTime for EmoteEventFields {
    fn event_time(&self) -> (r: i64)
        ensures
            r == self.base.time,
    {
        self.base.time
    }
}

impl EventTime for BundlePickUpEventFields {
    fn event_time(&self) -> (r: i64)
        ensures
            r == self.base.time,
    {
        self.base.time
    }
}

impl EventTime for HealthPercentEventFields {
    fn event_time(&self) -> (r: i64)
        ensures
            r == self.base.time,
    {
        self.base.time
    }
}

impl EventTime for BreakbarPercentEventFields {
    fn event_time(&self) -> (r: i64)
        ensures
            r == self.base.time,
    {
        self.base.time
    }
}

impl EventTime for MovementEventFields {
    fn event_time(&self) -> (r: i64)
        ensures
            r == self.base.time,
    {
        self.base.time
    }
}

} // verus!
