//! Fixed-byte enumerations of the EVTC format.
//!
//! Every enumeration reads one byte of a combat row: known values map to their
//! variant, and every other value folds to the `Unknown` variant.

use vstd::prelude::*;

verus! {

/// Skill activation byte of a combat row: how a cast started or stopped.
#[derive(Debug, Clone, Copy, PartialEq, Eq, Hash, Structural)]
pub enum Activation {
    NotSet,
    Normal,
    Quickness,
    Minimum,
    Cancel,
    Reset,
    NoData,
    Unknown,
}

impl Activation {
    /// The byte that stands for this value in a log.
    pub open spec fn byte_of(self) -> u8 {
        match self {
            Activation::NotSet => 0,
            Activation::Normal => 1,
            Activation::Quickness => 2,
            Activation::Minimum => 3,
            Activation::Cancel => 4,
            Activation::Reset => 5,
            Activation::NoData => 6,
            Activation::Unknown => 7,
        }
    }

    /// The value a log byte stands for; bytes outside the table fold to `Unknown`.
    pub open spec fn decode(byte: u8) -> Self {
        match byte {
            0u8 => Activation::NotSet,
            1u8 => Activation::Normal,
            2u8 => Activation::Quickness,
            3u8 => Activation::Minimum,
            4u8 => Activation::Cancel,
            5u8 => Activation::Reset,
            6u8 => Activation::NoData,
            7u8 => Activation::Unknown,
            _ => Activation::Unknown,
        }
    }

    /// The name of the value: its variant name, as it appears in log listings.
    pub open spec fn name_of(self) -> Seq<char> {
        match self {
            Activation::NotSet => "None"@,
            Activation::Normal => "Normal"@,
            Activation::Quickness => "Quickness"@,
            Activation::Minimum => "Minimum"@,
            Activation::Cancel => "Cancel"@,
            Activation::Reset => "Reset"@,
            Activation::NoData => "NoData"@,
            Activation::Unknown => "Unknown"@,
        }
    }

    /// Reads a log byte; values outside the table fold to `Unknown`.
    pub fn from_byte(byte: u8) -> (r: Self)
        ensures
            r == Self::decode(byte),
            byte <= 7 ==> r.byte_of() == byte,
            byte > 7 ==> r == Activation::Unknown,
    {
        match byte {
            0 => Activation::NotSet,
            1 => Activation::Normal,
            2 => Activation::Quickness,
            3 => Activation::Minimum,
            4 => Activation::Cancel,
            5 => Activation::Reset,
            6 => Activation::NoData,
            7 => Activation::Unknown,
            _ => Activation::Unknown,
        }
    }

    /// The byte that stands for this value.
    pub fn to_byte(self) -> (r: u8)
        ensures
            r == self.byte_of(),
            Self::decode(r) == self,
    {
        match self {
            Activation::NotSet => 0,
            Activation::Normal => 1,
            Activation::Quickness => 2,
            Activation::Minimum => 3,
            Activation::Cancel => 4,
            Activation::Reset => 5,
            Activation::NoData => 6,
            Activation::Unknown => 7,
        }
    }

    /// The name of the value.
    pub fn csharp_name(self) -> (r: &'static str)
        ensures
            r@ == self.name_of(),
    {
        match self {
            Activation::NotSet => "None",
            Activation::Normal => "Normal",
            Activation::Quickness => "Quickness",
            Activation::Minimum => "Minimum",
            Activation::Cancel => "Cancel",
            Activation::Reset => "Reset",
            Activation::NoData => "NoData",
            Activation::Unknown => "Unknown",
        }
    }
}

/// Kind of a cast start row (animation state-change layout).
#[derive(Debug, Clone, Copy, PartialEq, Eq, Hash, Structural)]
pub enum AnimationStart {
    NotSet,
    Command,
    Dodge,
    StowDraw,
    MoveSkill,
    MotionSkill,
    GadgetInteract,
    Emote,
    PickUp,
    Unknown,
}

impl AnimationStart {
    /// The byte that stands for this value in a log.
    pub open spec fn byte_of(self) -> u8 {
        match self {
            AnimationStart::NotSet => 0,
            AnimationStart::Command => 1,
            AnimationStart::Dodge => 2,
            AnimationStart::StowDraw => 3,
            AnimationStart::MoveSkill => 4,
            AnimationStart::MotionSkill => 5,
            AnimationStart::GadgetInteract => 6,
            AnimationStart::Emote => 7,
            AnimationStart::PickUp => 8,
            AnimationStart::Unknown => 9,
        }
    }

    /// The value a log byte stands for; bytes outside the table fold to `Unknown`.
    pub open spec fn decode(byte: u8) -> Self {
        match byte {
            0u8 => AnimationStart::NotSet,
            1u8 => AnimationStart::Command,
            2u8 => AnimationStart::Dodge,
            3u8 => AnimationStart::StowDraw,
            4u8 => AnimationStart::MoveSkill,
            5u8 => AnimationStart::MotionSkill,
            6u8 => AnimationStart::GadgetInteract,
            7u8 => AnimationStart::Emote,
            8u8 => AnimationStart::PickUp,
            9u8 => AnimationStart::Unknown,
            _ => AnimationStart::Unknown,
        }
    }

    /// The name of the value: its variant name, as it appears in log listings.
    pub open spec fn name_of(self) -> Seq<char> {
        match self {
            AnimationStart::NotSet => "None"@,
            AnimationStart::Command => "Command"@,
            AnimationStart::Dodge => "Dodge"@,
            AnimationStart::StowDraw => "StowDraw"@,
            AnimationStart::MoveSkill => "MoveSkill"@,
            AnimationStart::MotionSkill => "MotionSkill"@,
            AnimationStart::GadgetInteract => "GadgetInteract"@,
            AnimationStart::Emote => "Emote"@,
            AnimationStart::PickUp => "PickUp"@,
            AnimationStart::Unknown => "Unknown"@,
        }
    }

    /// Reads a log byte; values outside the table fold to `Unknown`.
    pub fn from_byte(byte: u8) -> (r: Self)
        ensures
            r == Self::decode(byte),
            byte <= 9 ==> r.byte_of() == byte,
            byte > 9 ==> r == AnimationStart::Unknown,
    {
        match byte {
            0 => AnimationStart::NotSet,
            1 => AnimationStart::Command,
            2 => AnimationStart::Dodge,
            3 => AnimationStart::StowDraw,
            4 => AnimationStart::MoveSkill,
            5 => AnimationStart::MotionSkill,
            6 => AnimationStart::GadgetInteract,
            7 => AnimationStart::Emote,
            8 => AnimationStart::PickUp,
            9 => AnimationStart::Unknown,
            _ => AnimationStart::Unknown,
        }
    }

    /// The byte that stands for this value.
    pub fn to_byte(self) -> (r: u8)
        ensures
            r == self.byte_of(),
            Self::decode(r) == self,
    {
        match self {
            AnimationStart::NotSet => 0,
            AnimationStart::Command => 1,
            AnimationStart::Dodge => 2,
            AnimationStart::StowDraw => 3,
            AnimationStart::MoveSkill => 4,
            AnimationStart::MotionSkill => 5,
            AnimationStart::GadgetInteract => 6,
            AnimationStart::Emote => 7,
            AnimationStart::PickUp => 8,
            AnimationStart::Unknown => 9,
        }
    }

    /// The name of the value.
    pub fn csharp_name(self) -> (r: &'static str)
        ensures
            r@ == self.name_of(),
    {
        match self {
            AnimationStart::NotSet => "None",
            AnimationStart::Command => "Command",
            AnimationStart::Dodge => "Dodge",
            AnimationStart::StowDraw => "StowDraw",
            AnimationStart::MoveSkill => "MoveSkill",
            AnimationStart::MotionSkill => "MotionSkill",
            AnimationStart::GadgetInteract => "GadgetInteract",
            AnimationStart::Emote => "Emote",
            AnimationStart::PickUp => "PickUp",
            AnimationStart::Unknown => "Unknown",
        }
    }
}

/// Kind of a cast end row (animation state-change layout).
#[derive(Debug, Clone, Copy, PartialEq, Eq, Hash, Structural)]
pub enum AnimationStop {
    NotSet,
    Instant,
    MultiDefunc,
    Transition,
    Partial,
    Ended,
    Cancel,
    StowDraw,
    Interrupt,
    Death,
    Downed,
    CrowdControl,
    Command,
    MotionSkill,
    MoveDodge,
    MotionSkillViaReset,
    MoveSkill,
    MovePos,
    Any,
    GadgetViaReset,
    ManualExpiry,
    Despawn,
    ReturnControl,
    Ready,
    Invisible,
    PickUp,
    Unknown,
}

impl AnimationStop {
    /// The byte that stands for this value in a log.
    pub open spec fn byte_of(self) -> u8 {
        match self {
            AnimationStop::NotSet => 0,
            AnimationStop::Instant => 1,
            AnimationStop::MultiDefunc => 2,
            AnimationStop::Transition => 3,
            AnimationStop::Partial => 4,
            AnimationStop::Ended => 5,
            AnimationStop::Cancel => 6,
            AnimationStop::StowDraw => 7,
            AnimationStop::Interrupt => 8,
            AnimationStop::Death => 9,
            AnimationStop::Downed => 10,
            AnimationStop::CrowdControl => 11,
            AnimationStop::Command => 12,
            AnimationStop::MotionSkill => 13,
            AnimationStop::MoveDodge => 14,
            AnimationStop::MotionSkillViaReset => 15,
            AnimationStop::MoveSkill => 16,
            AnimationStop::MovePos => 17,
            AnimationStop::Any => 18,
            AnimationStop::GadgetViaReset => 19,
            AnimationStop::ManualExpiry => 20,
            AnimationStop::Despawn => 21,
            AnimationStop::ReturnControl => 22,
            AnimationStop::Ready => 23,
            AnimationStop::Invisible => 24,
            AnimationStop::PickUp => 25,
            AnimationStop::Unknown => 26,
        }
    }

    /// The value a log byte stands for; bytes outside the table fold to `Unknown`.
    pub open spec fn decode(byte: u8) -> Self {
        match byte {
            0u8 => AnimationStop::NotSet,
            1u8 => AnimationStop::Instant,
            2u8 => AnimationStop::MultiDefunc,
            3u8 => AnimationStop::Transition,
            4u8 => AnimationStop::Partial,
            5u8 => AnimationStop::Ended,
            6u8 => AnimationStop::Cancel,
            7u8 => AnimationStop::StowDraw,
            8u8 => AnimationStop::Interrupt,
            9u8 => AnimationStop::Death,
            10u8 => AnimationStop::Downed,
            11u8 => AnimationStop::CrowdControl,
            12u8 => AnimationStop::Command,
            13u8 => AnimationStop::MotionSkill,
            14u8 => AnimationStop::MoveDodge,
            15u8 => AnimationStop::MotionSkillViaReset,
            16u8 => AnimationStop::MoveSkill,
            17u8 => AnimationStop::MovePos,
            18u8 => AnimationStop::Any,
            19u8 => AnimationStop::GadgetViaReset,
            20u8 => AnimationStop::ManualExpiry,
            21u8 => AnimationStop::Despawn,
            22u8 => AnimationStop::ReturnControl,
            23u8 => AnimationStop::Ready,
            24u8 => AnimationStop::Invisible,
            25u8 => AnimationStop::PickUp,
            26u8 => AnimationStop::Unknown,
            _ => AnimationStop::Unknown,
        }
    }

    /// The name of the value: its variant name, as it appears in log listings.
    pub open spec fn name_of(self) -> Seq<char> {
        match self {
            AnimationStop::NotSet => "None"@,
            AnimationStop::Instant => "Instant"@,
            AnimationStop::MultiDefunc => "MultiDefunc"@,
            AnimationStop::Transition => "Transition"@,
            AnimationStop::Partial => "Partial"@,
            AnimationStop::Ended => "Ended"@,
            AnimationStop::Cancel => "Cancel"@,
            AnimationStop::StowDraw => "StowDraw"@,
            AnimationStop::Interrupt => "Interrupt"@,
            AnimationStop::Death => "Death"@,
            AnimationStop::Downed => "Downed"@,
            AnimationStop::CrowdControl => "CrowdControl"@,
            AnimationStop::Command => "Command"@,
            AnimationStop::MotionSkill => "MotionSkill"@,
            AnimationStop::MoveDodge => "MoveDodge"@,
            AnimationStop::MotionSkillViaReset => "MotionSkillViaReset"@,
            AnimationStop::MoveSkill => "MoveSkill"@,
            AnimationStop::MovePos => "MovePos"@,
            AnimationStop::Any => "Any"@,
            AnimationStop::GadgetViaReset => "GadgetViaReset"@,
            AnimationStop::ManualExpiry => "ManualExpiry"@,
            AnimationStop::Despawn => "Despawn"@,
            AnimationStop::ReturnControl => "ReturnControl"@,
            AnimationStop::Ready => "Ready"@,
            AnimationStop::Invisible => "Invisible"@,
            AnimationStop::PickUp => "PickUp"@,
            AnimationStop::Unknown => "Unknown"@,
        }
    }

    /// Reads a log byte; values outside the table fold to `Unknown`.
    pub fn from_byte(byte: u8) -> (r: Self)
        ensures
            r == Self::decode(byte),
            byte <= 26 ==> r.byte_of() == byte,
            byte > 26 ==> r == AnimationStop::Unknown,
    {
        match byte {
            0 => AnimationStop::NotSet,
            1 => AnimationStop::Instant,
            2 => AnimationStop::MultiDefunc,
            3 => AnimationStop::Transition,
            4 => AnimationStop::Partial,
            5 => AnimationStop::Ended,
            6 => AnimationStop::Cancel,
            7 => AnimationStop::StowDraw,
            8 => AnimationStop::Interrupt,
            9 => AnimationStop::Death,
            10 => AnimationStop::Downed,
            11 => AnimationStop::CrowdControl,
            12 => AnimationStop::Command,
            13 => AnimationStop::MotionSkill,
            14 => AnimationStop::MoveDodge,
            15 => AnimationStop::MotionSkillViaReset,
            16 => AnimationStop::MoveSkill,
            17 => AnimationStop::MovePos,
            18 => AnimationStop::Any,
            19 => AnimationStop::GadgetViaReset,
            20 => AnimationStop::ManualExpiry,
            21 => AnimationStop::Despawn,
            22 => AnimationStop::ReturnControl,
            23 => AnimationStop::Ready,
            24 => AnimationStop::Invisible,
            25 => AnimationStop::PickUp,
            26 => AnimationStop::Unknown,
            _ => AnimationStop::Unknown,
        }
    }

    /// The byte that stands for this value.
    pub fn to_byte(self) -> (r: u8)
        ensures
            r == self.byte_of(),
            Self::decode(r) == self,
    {
        match self {
            AnimationStop::NotSet => 0,
            AnimationStop::Instant => 1,
            AnimationStop::MultiDefunc => 2,
            AnimationStop::Transition => 3,
            AnimationStop::Partial => 4,
            AnimationStop::Ended => 5,
            AnimationStop::Cancel => 6,
            AnimationStop::StowDraw => 7,
            AnimationStop::Interrupt => 8,
            AnimationStop::Death => 9,
            AnimationStop::Downed => 10,
            AnimationStop::CrowdControl => 11,
            AnimationStop::Command => 12,
            AnimationStop::MotionSkill => 13,
            AnimationStop::MoveDodge => 14,
            AnimationStop::MotionSkillViaReset => 15,
            AnimationStop::MoveSkill => 16,
            AnimationStop::MovePos => 17,
            AnimationStop::Any => 18,
            AnimationStop::GadgetViaReset => 19,
            AnimationStop::ManualExpiry => 20,
            AnimationStop::Despawn => 21,
            AnimationStop::ReturnControl => 22,
            AnimationStop::Ready => 23,
            AnimationStop::Invisible => 24,
            AnimationStop::PickUp => 25,
            AnimationStop::Unknown => 26,
        }
    }

    /// The name of the value.
    pub fn csharp_name(self) -> (r: &'static str)
        ensures
            r@ == self.name_of(),
    {
        match self {
            AnimationStop::NotSet => "None",
            AnimationStop::Instant => "Instant",
            AnimationStop::MultiDefunc => "MultiDefunc",
            AnimationStop::Transition => "Transition",
            AnimationStop::Partial => "Partial",
            AnimationStop::Ended => "Ended",
            AnimationStop::Cancel => "Cancel",
            AnimationStop::StowDraw => "StowDraw",
            AnimationStop::Interrupt => "Interrupt",
            AnimationStop::Death => "Death",
            AnimationStop::Downed => "Downed",
            AnimationStop::CrowdControl => "CrowdControl",
            AnimationStop::Command => "Command",
            AnimationStop::MotionSkill => "MotionSkill",
            AnimationStop::MoveDodge => "MoveDodge",
            AnimationStop::MotionSkillViaReset => "MotionSkillViaReset",
            AnimationStop::MoveSkill => "MoveSkill",
            AnimationStop::MovePos => "MovePos",
            AnimationStop::Any => "Any",
            AnimationStop::GadgetViaReset => "GadgetViaReset",
            AnimationStop::ManualExpiry => "ManualExpiry",
            AnimationStop::Despawn => "Despawn",
            AnimationStop::ReturnControl => "ReturnControl",
            AnimationStop::Ready => "Ready",
            AnimationStop::Invisible => "Invisible",
            AnimationStop::PickUp => "PickUp",
            AnimationStop::Unknown => "Unknown",
        }
    }
}

/// How a buff removal row removes stacks.
#[derive(Debug, Clone, Copy, PartialEq, Eq, Hash, Structural)]
pub enum BuffRemove {
    NotSet,
    All,
    Single,
    Manual,
    Unknown,
}

impl BuffRemove {
    /// The byte that stands for this value in a log.
    pub open spec fn byte_of(self) -> u8 {
        match self {
            BuffRemove::NotSet => 0,
            BuffRemove::All => 1,
            BuffRemove::Single => 2,
            BuffRemove::Manual => 3,
            BuffRemove::Unknown => 4,
        }
    }

    /// The value a log byte stands for; bytes outside the table fold to `Unknown`.
    pub open spec fn decode(byte: u8) -> Self {
        match byte {
            0u8 => BuffRemove::NotSet,
            1u8 => BuffRemove::All,
            2u8 => BuffRemove::Single,
            3u8 => BuffRemove::Manual,
            4u8 => BuffRemove::Unknown,
            _ => BuffRemove::Unknown,
        }
    }

    /// The name of the value: its variant name, as it appears in log listings.
    pub open spec fn name_of(self) -> Seq<char> {
        match self {
            BuffRemove::NotSet => "None"@,
            BuffRemove::All => "All"@,
            BuffRemove::Single => "Single"@,
            BuffRemove::Manual => "Manual"@,
            BuffRemove::Unknown => "Unknown"@,
        }
    }

    /// Reads a log byte; values outside the table fold to `Unknown`.
    pub fn from_byte(byte: u8) -> (r: Self)
        ensures
            r == Self::decode(byte),
            byte <= 4 ==> r.byte_of() == byte,
            byte > 4 ==> r == BuffRemove::Unknown,
    {
        match byte {
            0 => BuffRemove::NotSet,
            1 => BuffRemove::All,
            2 => BuffRemove::Single,
            3 => BuffRemove::Manual,
            4 => BuffRemove::Unknown,
            _ => BuffRemove::Unknown,
        }
    }

    /// The byte that stands for this value.
    pub fn to_byte(self) -> (r: u8)
        ensures
            r == self.byte_of(),
            Self::decode(r) == self,
    {
        match self {
            BuffRemove::NotSet => 0,
            BuffRemove::All => 1,
            BuffRemove::Single => 2,
            BuffRemove::Manual => 3,
            BuffRemove::Unknown => 4,
        }
    }

    /// The name of the value.
    pub fn csharp_name(self) -> (r: &'static str)
        ensures
            r@ == self.name_of(),
    {
        match self {
            BuffRemove::NotSet => "None",
            BuffRemove::All => "All",
            BuffRemove::Single => "Single",
            BuffRemove::Manual => "Manual",
            BuffRemove::Unknown => "Unknown",
        }
    }
}

/// Tick timing of a condition damage row (retired layout).
#[allow(non_camel_case_types)]
#[derive(Debug, Clone, Copy, PartialEq, Eq, Hash, Structural)]
pub enum BuffCycle {
    Cycle,
    NotCycle,
    NotCycle_NoResit,
    NotCycle_DamageToTargetOnHit,
    NotCycle_DamageToSourceOnHit,
    NotCycle_DamageToTargetOnStackRemove,
    Unknown,
}

impl BuffCycle {
    /// The byte that stands for this value in a log.
    pub open spec fn byte_of(self) -> u8 {
        match self {
            BuffCycle::Cycle => 0,
            BuffCycle::NotCycle => 1,
            BuffCycle::NotCycle_NoResit => 2,
            BuffCycle::NotCycle_DamageToTargetOnHit => 3,
            BuffCycle::NotCycle_DamageToSourceOnHit => 4,
            BuffCycle::NotCycle_DamageToTargetOnStackRemove => 5,
            BuffCycle::Unknown => 6,
        }
    }

    /// The value a log byte stands for; bytes outside the table fold to `Unknown`.
    pub open spec fn decode(byte: u8) -> Self {
        match byte {
            0u8 => BuffCycle::Cycle,
            1u8 => BuffCycle::NotCycle,
            2u8 => BuffCycle::NotCycle_NoResit,
            3u8 => BuffCycle::NotCycle_DamageToTargetOnHit,
            4u8 => BuffCycle::NotCycle_DamageToSourceOnHit,
            5u8 => BuffCycle::NotCycle_DamageToTargetOnStackRemove,
            6u8 => BuffCycle::Unknown,
            _ => BuffCycle::Unknown,
        }
    }

    /// The name of the value: its variant name, as it appears in log listings.
    pub open spec fn name_of(self) -> Seq<char> {
        match self {
            BuffCycle::Cycle => "Cycle"@,
            BuffCycle::NotCycle => "NotCycle"@,
            BuffCycle::NotCycle_NoResit => "NotCycle_NoResit"@,
            BuffCycle::NotCycle_DamageToTargetOnHit => "NotCycle_DamageToTargetOnHit"@,
            BuffCycle::NotCycle_DamageToSourceOnHit => "NotCycle_DamageToSourceOnHit"@,
            BuffCycle::NotCycle_DamageToTargetOnStackRemove => "NotCycle_DamageToTargetOnStackRemove"@,
            BuffCycle::Unknown => "Unknown"@,
        }
    }

    /// Reads a log byte; values outside the table fold to `Unknown`.
    pub fn from_byte(byte: u8) -> (r: Self)
        ensures
            r == Self::decode(byte),
            byte <= 6 ==> r.byte_of() == byte,
            byte > 6 ==> r == BuffCycle::Unknown,
    {
        match byte {
            0 => BuffCycle::Cycle,
            1 => BuffCycle::NotCycle,
            2 => BuffCycle::NotCycle_NoResit,
            3 => BuffCycle::NotCycle_DamageToTargetOnHit,
            4 => BuffCycle::NotCycle_DamageToSourceOnHit,
            5 => BuffCycle::NotCycle_DamageToTargetOnStackRemove,
            6 => BuffCycle::Unknown,
            _ => BuffCycle::Unknown,
        }
    }

    /// The byte that stands for this value.
    pub fn to_byte(self) -> (r: u8)
        ensures
            r == self.byte_of(),
            Self::decode(r) == self,
    {
        match self {
            BuffCycle::Cycle => 0,
            BuffCycle::NotCycle => 1,
            BuffCycle::NotCycle_NoResit => 2,
            BuffCycle::NotCycle_DamageToTargetOnHit => 3,
            BuffCycle::NotCycle_DamageToSourceOnHit => 4,
            BuffCycle::NotCycle_DamageToTargetOnStackRemove => 5,
            BuffCycle::Unknown => 6,
        }
    }

    /// The name of the value.
    pub fn csharp_name(self) -> (r: &'static str)
        ensures
            r@ == self.name_of(),
    {
        match self {
            BuffCycle::Cycle => "Cycle",
            BuffCycle::NotCycle => "NotCycle",
            BuffCycle::NotCycle_NoResit => "NotCycle_NoResit",
            BuffCycle::NotCycle_DamageToTargetOnHit => "NotCycle_DamageToTargetOnHit",
            BuffCycle::NotCycle_DamageToSourceOnHit => "NotCycle_DamageToSourceOnHit",
            BuffCycle::NotCycle_DamageToTargetOnStackRemove => "NotCycle_DamageToTargetOnStackRemove",
            BuffCycle::Unknown => "Unknown",
        }
    }
}

/// Result byte of a damage row.
#[allow(non_camel_case_types)]
#[derive(Debug, Clone, Copy, PartialEq, Eq, Hash, Structural)]
pub enum DamageResult {
    DirectNormal,
    DirectCrit,
    DirectGlance,
    DirectBlock,
    DirectEvade,
    Interrupt,
    DirectOrBuffAbsorb,
    DirectBlind,
    KillingBlow,
    Downed,
    BreakbarDamage,
    Activation,
    CrowdControl,
    DirectOrBuffInvert,
    BuffCycle,
    BuffNotCycle,
    BuffNotCycle_DamageToTargetOnHit,
    BuffNotCycle_DamageToSourceOnHit,
    BuffNotCycle_DamageToTargetOnStackRemove,
    Unknown,
}

impl DamageResult {
    /// The byte that stands for this value in a log.
    pub open spec fn byte_of(self) -> u8 {
        match self {
            DamageResult::DirectNormal => 0,
            DamageResult::DirectCrit => 1,
            DamageResult::DirectGlance => 2,
            DamageResult::DirectBlock => 3,
            DamageResult::DirectEvade => 4,
            DamageResult::Interrupt => 5,
            DamageResult::DirectOrBuffAbsorb => 6,
            DamageResult::DirectBlind => 7,
            DamageResult::KillingBlow => 8,
            DamageResult::Downed => 9,
            DamageResult::BreakbarDamage => 10,
            DamageResult::Activation => 11,
            DamageResult::CrowdControl => 12,
            DamageResult::DirectOrBuffInvert => 13,
            DamageResult::BuffCycle => 14,
            DamageResult::BuffNotCycle => 15,
            DamageResult::BuffNotCycle_DamageToTargetOnHit => 16,
            DamageResult::BuffNotCycle_DamageToSourceOnHit => 17,
            DamageResult::BuffNotCycle_DamageToTargetOnStackRemove => 18,
            DamageResult::Unknown => 19,
        }
    }

    /// The value a log byte stands for; bytes outside the table fold to `Unknown`.
    pub open spec fn decode(byte: u8) -> Self {
        match byte {
            0u8 => DamageResult::DirectNormal,
            1u8 => DamageResult::DirectCrit,
            2u8 => DamageResult::DirectGlance,
            3u8 => DamageResult::DirectBlock,
            4u8 => DamageResult::DirectEvade,
            5u8 => DamageResult::Interrupt,
            6u8 => DamageResult::DirectOrBuffAbsorb,
            7u8 => DamageResult::DirectBlind,
            8u8 => DamageResult::KillingBlow,
            9u8 => DamageResult::Downed,
            10u8 => DamageResult::BreakbarDamage,
            11u8 => DamageResult::Activation,
            12u8 => DamageResult::CrowdControl,
            13u8 => DamageResult::DirectOrBuffInvert,
            14u8 => DamageResult::BuffCycle,
            15u8 => DamageResult::BuffNotCycle,
            16u8 => DamageResult::BuffNotCycle_DamageToTargetOnHit,
            17u8 => DamageResult::BuffNotCycle_DamageToSourceOnHit,
            18u8 => DamageResult::BuffNotCycle_DamageToTargetOnStackRemove,
            19u8 => DamageResult::Unknown,
            _ => DamageResult::Unknown,
        }
    }

    /// The name of the value: its variant name, as it appears in log listings.
    pub open spec fn name_of(self) -> Seq<char> {
        match self {
            DamageResult::DirectNormal => "DirectNormal"@,
            DamageResult::DirectCrit => "DirectCrit"@,
            DamageResult::DirectGlance => "DirectGlance"@,
            DamageResult::DirectBlock => "DirectBlock"@,
            DamageResult::DirectEvade => "DirectEvade"@,
            DamageResult::Interrupt => "Interrupt"@,
            DamageResult::DirectOrBuffAbsorb => "DirectOrBuffAbsorb"@,
            DamageResult::DirectBlind => "DirectBlind"@,
            DamageResult::KillingBlow => "KillingBlow"@,
            DamageResult::Downed => "Downed"@,
            DamageResult::BreakbarDamage => "BreakbarDamage"@,
            DamageResult::Activation => "Activation"@,
            DamageResult::CrowdControl => "CrowdControl"@,
            DamageResult::DirectOrBuffInvert => "DirectOrBuffInvert"@,
            DamageResult::BuffCycle => "BuffCycle"@,
            DamageResult::BuffNotCycle => "BuffNotCycle"@,
            DamageResult::BuffNotCycle_DamageToTargetOnHit => "BuffNotCycle_DamageToTargetOnHit"@,
            DamageResult::BuffNotCycle_DamageToSourceOnHit => "BuffNotCycle_DamageToSourceOnHit"@,
            DamageResult::BuffNotCycle_DamageToTargetOnStackRemove => "BuffNotCycle_DamageToTargetOnStackRemove"@,
            DamageResult::Unknown => "Unknown"@,
        }
    }

    /// Reads a log byte; values outside the table fold to `Unknown`.
    pub fn from_byte(byte: u8) -> (r: Self)
        ensures
            r == Self::decode(byte),
            byte <= 19 ==> r.byte_of() == byte,
            byte > 19 ==> r == DamageResult::Unknown,
    {
        match byte {
            0 => DamageResult::DirectNormal,
            1 => DamageResult::DirectCrit,
            2 => DamageResult::DirectGlance,
            3 => DamageResult::DirectBlock,
            4 => DamageResult::DirectEvade,
            5 => DamageResult::Interrupt,
            6 => DamageResult::DirectOrBuffAbsorb,
            7 => DamageResult::DirectBlind,
            8 => DamageResult::KillingBlow,
            9 => DamageResult::Downed,
            10 => DamageResult::BreakbarDamage,
            11 => DamageResult::Activation,
            12 => DamageResult::CrowdControl,
            13 => DamageResult::DirectOrBuffInvert,
            14 => DamageResult::BuffCycle,
            15 => DamageResult::BuffNotCycle,
            16 => DamageResult::BuffNotCycle_DamageToTargetOnHit,
            17 => DamageResult::BuffNotCycle_DamageToSourceOnHit,
            18 => DamageResult::BuffNotCycle_DamageToTargetOnStackRemove,
            19 => DamageResult::Unknown,
            _ => DamageResult::Unknown,
        }
    }

    /// The byte that stands for this value.
    pub fn to_byte(self) -> (r: u8)
        ensures
            r == self.byte_of(),
            Self::decode(r) == self,
    {
        match self {
            DamageResult::DirectNormal => 0,
            DamageResult::DirectCrit => 1,
            DamageResult::DirectGlance => 2,
            DamageResult::DirectBlock => 3,
            DamageResult::DirectEvade => 4,
            DamageResult::Interrupt => 5,
            DamageResult::DirectOrBuffAbsorb => 6,
            DamageResult::DirectBlind => 7,
            DamageResult::KillingBlow => 8,
            DamageResult::Downed => 9,
            DamageResult::BreakbarDamage => 10,
            DamageResult::Activation => 11,
            DamageResult::CrowdControl => 12,
            DamageResult::DirectOrBuffInvert => 13,
            DamageResult::BuffCycle => 14,
            DamageResult::BuffNotCycle => 15,
            DamageResult::BuffNotCycle_DamageToTargetOnHit => 16,
            DamageResult::BuffNotCycle_DamageToSourceOnHit => 17,
            DamageResult::BuffNotCycle_DamageToTargetOnStackRemove => 18,
            DamageResult::Unknown => 19,
        }
    }

    /// The name of the value.
    pub fn csharp_name(self) -> (r: &'static str)
        ensures
            r@ == self.name_of(),
    {
        match self {
            DamageResult::DirectNormal => "DirectNormal",
            DamageResult::DirectCrit => "DirectCrit",
            DamageResult::DirectGlance => "DirectGlance",
            DamageResult::DirectBlock => "DirectBlock",
            DamageResult::DirectEvade => "DirectEvade",
            DamageResult::Interrupt => "Interrupt",
            DamageResult::DirectOrBuffAbsorb => "DirectOrBuffAbsorb",
            DamageResult::DirectBlind => "DirectBlind",
            DamageResult::KillingBlow => "KillingBlow",
            DamageResult::Downed => "Downed",
            DamageResult::BreakbarDamage => "BreakbarDamage",
            DamageResult::Activation => "Activation",
            DamageResult::CrowdControl => "CrowdControl",
            DamageResult::DirectOrBuffInvert => "DirectOrBuffInvert",
            DamageResult::BuffCycle => "BuffCycle",
            DamageResult::BuffNotCycle => "BuffNotCycle",
            DamageResult::BuffNotCycle_DamageToTargetOnHit => "BuffNotCycle_DamageToTargetOnHit",
            DamageResult::BuffNotCycle_DamageToSourceOnHit => "BuffNotCycle_DamageToSourceOnHit",
            DamageResult::BuffNotCycle_DamageToTargetOnStackRemove => "BuffNotCycle_DamageToTargetOnStackRemove",
            DamageResult::Unknown => "Unknown",
        }
    }
}

/// Result byte of a condition row (retired layout).
#[derive(Debug, Clone, Copy, PartialEq, Eq, Hash, Structural)]
pub enum ConditionResult {
    ExpectedToHit,
    InvulByBuff,
    InvulByPlayerSkill1,
    InvulByPlayerSkill2,
    InvulByPlayerSkill3,
    Unknown,
}

impl ConditionResult {
    /// The byte that stands for this value in a log.
    pub open spec fn byte_of(self) -> u8 {
        match self {
            ConditionResult::ExpectedToHit => 0,
            ConditionResult::InvulByBuff => 1,
            ConditionResult::InvulByPlayerSkill1 => 2,
            ConditionResult::InvulByPlayerSkill2 => 3,
            ConditionResult::InvulByPlayerSkill3 => 4,
            ConditionResult::Unknown => 5,
        }
    }

    /// The value a log byte stands for; bytes outside the table fold to `Unknown`.
    pub open spec fn decode(byte: u8) -> Self {
        match byte {
            0u8 => ConditionResult::ExpectedToHit,
            1u8 => ConditionResult::InvulByBuff,
            2u8 => ConditionResult::InvulByPlayerSkill1,
            3u8 => ConditionResult::InvulByPlayerSkill2,
            4u8 => ConditionResult::InvulByPlayerSkill3,
            5u8 => ConditionResult::Unknown,
            _ => ConditionResult::Unknown,
        }
    }

    /// The name of the value: its variant name, as it appears in log listings.
    pub open spec fn name_of(self) -> Seq<char> {
        match self {
            ConditionResult::ExpectedToHit => "ExpectedToHit"@,
            ConditionResult::InvulByBuff => "InvulByBuff"@,
            ConditionResult::InvulByPlayerSkill1 => "InvulByPlayerSkill1"@,
            ConditionResult::InvulByPlayerSkill2 => "InvulByPlayerSkill2"@,
            ConditionResult::InvulByPlayerSkill3 => "InvulByPlayerSkill3"@,
            ConditionResult::Unknown => "Unknown"@,
        }
    }

    /// Reads a log byte; values outside the table fold to `Unknown`.
    pub fn from_byte(byte: u8) -> (r: Self)
        ensures
            r == Self::decode(byte),
            byte <= 5 ==> r.byte_of() == byte,
            byte > 5 ==> r == ConditionResult::Unknown,
    {
        match byte {
            0 => ConditionResult::ExpectedToHit,
            1 => ConditionResult::InvulByBuff,
            2 => ConditionResult::InvulByPlayerSkill1,
            3 => ConditionResult::InvulByPlayerSkill2,
            4 => ConditionResult::InvulByPlayerSkill3,
            5 => ConditionResult::Unknown,
            _ => ConditionResult::Unknown,
        }
    }

    /// The byte that stands for this value.
    pub fn to_byte(self) -> (r: u8)
        ensures
            r == self.byte_of(),
            Self::decode(r) == self,
    {
        match self {
            ConditionResult::ExpectedToHit => 0,
            ConditionResult::InvulByBuff => 1,
            ConditionResult::InvulByPlayerSkill1 => 2,
            ConditionResult::InvulByPlayerSkill2 => 3,
            ConditionResult::InvulByPlayerSkill3 => 4,
            ConditionResult::Unknown => 5,
        }
    }

    /// The name of the value.
    pub fn csharp_name(self) -> (r: &'static str)
        ensures
            r@ == self.name_of(),
    {
        match self {
            ConditionResult::ExpectedToHit => "ExpectedToHit",
            ConditionResult::InvulByBuff => "InvulByBuff",
            ConditionResult::InvulByPlayerSkill1 => "InvulByPlayerSkill1",
            ConditionResult::InvulByPlayerSkill2 => "InvulByPlayerSkill2",
            ConditionResult::InvulByPlayerSkill3 => "InvulByPlayerSkill3",
            ConditionResult::Unknown => "Unknown",
        }
    }
}

/// State-change kind of a combat row.
#[allow(non_camel_case_types)]
#[derive(Debug, Clone, Copy, PartialEq, Eq, Hash, Structural)]
pub enum StateChange {
    Combat,
    EnterCombat,
    ExitCombat,
    ChangeUp,
    ChangeDead,
    ChangeDown,
    Spawn,
    Despawn,
    HealthUpdate,
    SquadCombatStart,
    SquadCombatEnd,
    WeaponSwap,
    MaxHealthUpdate,
    PointOfView,
    Language,
    GWBuild,
    ShardID,
    Reward,
    BuffInitial,
    Position,
    Velocity,
    Rotation,
    TeamChange,
    AttackTarget,
    Targetable,
    MapID,
    ReplInfo,
    StackActive,
    StackDeactive,
    Guild,
    BuffInfo,
    BuffFormula,
    SkillInfo,
    SkillTiming,
    BreakbarState,
    BreakbarPercent,
    Integrity,
    Marker,
    BarrierUpdate,
    StatReset,
    Extension,
    APIDelayed,
    InstanceStart,
    TickRate,
    Last90BeforeDown,
    Effect_45,
    IDToGUID,
    LogNPCUpdate,
    Idle,
    ExtensionCombat,
    FractalScale,
    Effect_51,
    RuleSet,
    SquadMarker,
    ArcBuild,
    Glider,
    StunBreak,
    MissileCreate,
    MissileLaunch,
    MissileRemove,
    EffectGroundCreate,
    EffectGroundRemove,
    EffectAgentCreate,
    EffectAgentRemove,
    AgentChange,
    MapChange,
    EarlyExit,
    AnimationStart,
    AnimationStop,
    BuffApply,
    BuffChange,
    BuffRemoveSingle,
    BuffRemoveAll,
    Transformation,
    WvWTeams,
    WvWObjectiveStatus,
    StealthChange,
    GadgetAnimation,
    GadgetNameVisible,
    EffectMissileCreate,
    GadgetCaptureOutlineShow,
    GadgetCaptureSplitPercent,
    GadgetCaptureOutlineHide,
    GadgetCaptureOutlinePoint,
    Tick,
    Teleport,
    Jump,
    Unknown,
}

impl StateChange {
    /// The byte that stands for this value in a log.
    pub open spec fn byte_of(self) -> u8 {
        match self {
            StateChange::Combat => 0,
            StateChange::EnterCombat => 1,
            StateChange::ExitCombat => 2,
            StateChange::ChangeUp => 3,
            StateChange::ChangeDead => 4,
            StateChange::ChangeDown => 5,
            StateChange::Spawn => 6,
            StateChange::Despawn => 7,
            StateChange::HealthUpdate => 8,
            StateChange::SquadCombatStart => 9,
            StateChange::SquadCombatEnd => 10,
            StateChange::WeaponSwap => 11,
            StateChange::MaxHealthUpdate => 12,
            StateChange::PointOfView => 13,
            StateChange::Language => 14,
            StateChange::GWBuild => 15,
            StateChange::ShardID => 16,
            StateChange::Reward => 17,
            StateChange::BuffInitial => 18,
            StateChange::Position => 19,
            StateChange::Velocity => 20,
            StateChange::Rotation => 21,
            StateChange::TeamChange => 22,
            StateChange::AttackTarget => 23,
            StateChange::Targetable => 24,
            StateChange::MapID => 25,
            StateChange::ReplInfo => 26,
            StateChange::StackActive => 27,
            StateChange::StackDeactive => 28,
            StateChange::Guild => 29,
            StateChange::BuffInfo => 30,
            StateChange::BuffFormula => 31,
            StateChange::SkillInfo => 32,
            StateChange::SkillTiming => 33,
            StateChange::BreakbarState => 34,
            StateChange::BreakbarPercent => 35,
            StateChange::Integrity => 36,
            StateChange::Marker => 37,
            StateChange::BarrierUpdate => 38,
            StateChange::StatReset => 39,
            StateChange::Extension => 40,
            StateChange::APIDelayed => 41,
            StateChange::InstanceStart => 42,
            StateChange::TickRate => 43,
            StateChange::Last90BeforeDown => 44,
            StateChange::Effect_45 => 45,
            StateChange::IDToGUID => 46,
            StateChange::LogNPCUpdate => 47,
            StateChange::Idle => 48,
            StateChange::ExtensionCombat => 49,
            StateChange::FractalScale => 50,
            StateChange::Effect_51 => 51,
            StateChange::RuleSet => 52,
            StateChange::SquadMarker => 53,
            StateChange::ArcBuild => 54,
            StateChange::Glider => 55,
            StateChange::StunBreak => 56,
            StateChange::MissileCreate => 57,
            StateChange::MissileLaunch => 58,
            StateChange::MissileRemove => 59,
            StateChange::EffectGroundCreate => 60,
            StateChange::EffectGroundRemove => 61,
            StateChange::EffectAgentCreate => 62,
            StateChange::EffectAgentRemove => 63,
            StateChange::AgentChange => 64,
            StateChange::MapChange => 65,
            StateChange::EarlyExit => 66,
            StateChange::AnimationStart => 67,
            StateChange::AnimationStop => 68,
            StateChange::BuffApply => 69,
            StateChange::BuffChange => 70,
            StateChange::BuffRemoveSingle => 71,
            StateChange::BuffRemoveAll => 72,
            StateChange::Transformation => 73,
            StateChange::WvWTeams => 74,
            StateChange::WvWObjectiveStatus => 75,
            StateChange::StealthChange => 76,
            StateChange::GadgetAnimation => 77,
            StateChange::GadgetNameVisible => 78,
            StateChange::EffectMissileCreate => 79,
            StateChange::GadgetCaptureOutlineShow => 80,
            StateChange::GadgetCaptureSplitPercent => 81,
            StateChange::GadgetCaptureOutlineHide => 82,
            StateChange::GadgetCaptureOutlinePoint => 83,
            StateChange::Tick => 84,
            StateChange::Teleport => 85,
            StateChange::Jump => 86,
            StateChange::Unknown => 87,
        }
    }

    /// The value a log byte stands for; bytes outside the table fold to `Unknown`.
    pub open spec fn decode(byte: u8) -> Self {
        match byte {
            0u8 => StateChange::Combat,
            1u8 => StateChange::EnterCombat,
            2u8 => StateChange::ExitCombat,
            3u8 => StateChange::ChangeUp,
            4u8 => StateChange::ChangeDead,
            5u8 => StateChange::ChangeDown,
            6u8 => StateChange::Spawn,
            7u8 => StateChange::Despawn,
            8u8 => StateChange::HealthUpdate,
            9u8 => StateChange::SquadCombatStart,
            10u8 => StateChange::SquadCombatEnd,
            11u8 => StateChange::WeaponSwap,
            12u8 => StateChange::MaxHealthUpdate,
            13u8 => StateChange::PointOfView,
            14u8 => StateChange::Language,
            15u8 => StateChange::GWBuild,
            16u8 => StateChange::ShardID,
            17u8 => StateChange::Reward,
            18u8 => StateChange::BuffInitial,
            19u8 => StateChange::Position,
            20u8 => StateChange::Velocity,
            21u8 => StateChange::Rotation,
            22u8 => StateChange::TeamChange,
            23u8 => StateChange::AttackTarget,
            24u8 => StateChange::Targetable,
            25u8 => StateChange::MapID,
            26u8 => StateChange::ReplInfo,
            27u8 => StateChange::StackActive,
            28u8 => StateChange::StackDeactive,
            29u8 => StateChange::Guild,
            30u8 => StateChange::BuffInfo,
            31u8 => StateChange::BuffFormula,
            32u8 => StateChange::SkillInfo,
            33u8 => StateChange::SkillTiming,
            34u8 => StateChange::BreakbarState,
            35u8 => StateChange::BreakbarPercent,
            36u8 => StateChange::Integrity,
            37u8 => StateChange::Marker,
            38u8 => StateChange::BarrierUpdate,
            39u8 => StateChange::StatReset,
            40u8 => StateChange::Extension,
            41u8 => StateChange::APIDelayed,
            42u8 => StateChange::InstanceStart,
            43u8 => StateChange::TickRate,
            44u8 => StateChange::Last90BeforeDown,
            45u8 => StateChange::Effect_45,
            46u8 => StateChange::IDToGUID,
            47u8 => StateChange::LogNPCUpdate,
            48u8 => StateChange::Idle,
            49u8 => StateChange::ExtensionCombat,
            50u8 => StateChange::FractalScale,
            51u8 => StateChange::Effect_51,
            52u8 => StateChange::RuleSet,
            53u8 => StateChange::SquadMarker,
            54u8 => StateChange::ArcBuild,
            55u8 => StateChange::Glider,
            56u8 => StateChange::StunBreak,
            57u8 => StateChange::MissileCreate,
            58u8 => StateChange::MissileLaunch,
            59u8 => StateChange::MissileRemove,
            60u8 => StateChange::EffectGroundCreate,
            61u8 => StateChange::EffectGroundRemove,
            62u8 => StateChange::EffectAgentCreate,
            63u8 => StateChange::EffectAgentRemove,
            64u8 => StateChange::AgentChange,
            65u8 => StateChange::MapChange,
            66u8 => StateChange::EarlyExit,
            67u8 => StateChange::AnimationStart,
            68u8 => StateChange::AnimationStop,
            69u8 => StateChange::BuffApply,
            70u8 => StateChange::BuffChange,
            71u8 => StateChange::BuffRemoveSingle,
            72u8 => StateChange::BuffRemoveAll,
            73u8 => StateChange::Transformation,
            74u8 => StateChange::WvWTeams,
            75u8 => StateChange::WvWObjectiveStatus,
            76u8 => StateChange::StealthChange,
            77u8 => StateChange::GadgetAnimation,
            78u8 => StateChange::GadgetNameVisible,
            79u8 => StateChange::EffectMissileCreate,
            80u8 => StateChange::GadgetCaptureOutlineShow,
            81u8 => StateChange::GadgetCaptureSplitPercent,
            82u8 => StateChange::GadgetCaptureOutlineHide,
            83u8 => StateChange::GadgetCaptureOutlinePoint,
            84u8 => StateChange::Tick,
            85u8 => StateChange::Teleport,
            86u8 => StateChange::Jump,
            87u8 => StateChange::Unknown,
            _ => StateChange::Unknown,
        }
    }

    /// The name of the value: its variant name, as it appears in log listings.
    pub open spec fn name_of(self) -> Seq<char> {
        match self {
            StateChange::Combat => "Combat"@,
            StateChange::EnterCombat => "EnterCombat"@,
            StateChange::ExitCombat => "ExitCombat"@,
            StateChange::ChangeUp => "ChangeUp"@,
            StateChange::ChangeDead => "ChangeDead"@,
            StateChange::ChangeDown => "ChangeDown"@,
            StateChange::Spawn => "Spawn"@,
            StateChange::Despawn => "Despawn"@,
            StateChange::HealthUpdate => "HealthUpdate"@,
            StateChange::SquadCombatStart => "SquadCombatStart"@,
            StateChange::SquadCombatEnd => "SquadCombatEnd"@,
            StateChange::WeaponSwap => "WeaponSwap"@,
            StateChange::MaxHealthUpdate => "MaxHealthUpdate"@,
            StateChange::PointOfView => "PointOfView"@,
            StateChange::Language => "Language"@,
            StateChange::GWBuild => "GWBuild"@,
            StateChange::ShardID => "ShardID"@,
            StateChange::Reward => "Reward"@,
            StateChange::BuffInitial => "BuffInitial"@,
            StateChange::Position => "Position"@,
            StateChange::Velocity => "Velocity"@,
            StateChange::Rotation => "Rotation"@,
            StateChange::TeamChange => "TeamChange"@,
            StateChange::AttackTarget => "AttackTarget"@,
            StateChange::Targetable => "Targetable"@,
            StateChange::MapID => "MapID"@,
            StateChange::ReplInfo => "ReplInfo"@,
            StateChange::StackActive => "StackActive"@,
            StateChange::StackDeactive => "StackDeactive"@,
            StateChange::Guild => "Guild"@,
            StateChange::BuffInfo => "BuffInfo"@,
            StateChange::BuffFormula => "BuffFormula"@,
            StateChange::SkillInfo => "SkillInfo"@,
            StateChange::SkillTiming => "SkillTiming"@,
            StateChange::BreakbarState => "BreakbarState"@,
            StateChange::BreakbarPercent => "BreakbarPercent"@,
            StateChange::Integrity => "Integrity"@,
            StateChange::Marker => "Marker"@,
            StateChange::BarrierUpdate => "BarrierUpdate"@,
            StateChange::StatReset => "StatReset"@,
            StateChange::Extension => "Extension"@,
            StateChange::APIDelayed => "APIDelayed"@,
            StateChange::InstanceStart => "InstanceStart"@,
            StateChange::TickRate => "TickRate"@,
            StateChange::Last90BeforeDown => "Last90BeforeDown"@,
            StateChange::Effect_45 => "Effect_45"@,
            StateChange::IDToGUID => "IDToGUID"@,
            StateChange::LogNPCUpdate => "LogNPCUpdate"@,
            StateChange::Idle => "Idle"@,
            StateChange::ExtensionCombat => "ExtensionCombat"@,
            StateChange::FractalScale => "FractalScale"@,
            StateChange::Effect_51 => "Effect_51"@,
            StateChange::RuleSet => "RuleSet"@,
            StateChange::SquadMarker => "SquadMarker"@,
            StateChange::ArcBuild => "ArcBuild"@,
            StateChange::Glider => "Glider"@,
            StateChange::StunBreak => "StunBreak"@,
            StateChange::MissileCreate => "MissileCreate"@,
            StateChange::MissileLaunch => "MissileLaunch"@,
            StateChange::MissileRemove => "MissileRemove"@,
            StateChange::EffectGroundCreate => "EffectGroundCreate"@,
            StateChange::EffectGroundRemove => "EffectGroundRemove"@,
            StateChange::EffectAgentCreate => "EffectAgentCreate"@,
            StateChange::EffectAgentRemove => "EffectAgentRemove"@,
            StateChange::AgentChange => "AgentChange"@,
            StateChange::MapChange => "MapChange"@,
            StateChange::EarlyExit => "EarlyExit"@,
            StateChange::AnimationStart => "AnimationStart"@,
            StateChange::AnimationStop => "AnimationStop"@,
            StateChange::BuffApply => "BuffApply"@,
            StateChange::BuffChange => "BuffChange"@,
            StateChange::BuffRemoveSingle => "BuffRemoveSingle"@,
            StateChange::BuffRemoveAll => "BuffRemoveAll"@,
            StateChange::Transformation => "Transformation"@,
            StateChange::WvWTeams => "WvWTeams"@,
            StateChange::WvWObjectiveStatus => "WvWObjectiveStatus"@,
            StateChange::StealthChange => "StealthChange"@,
            StateChange::GadgetAnimation => "GadgetAnimation"@,
            StateChange::GadgetNameVisible => "GadgetNameVisible"@,
            StateChange::EffectMissileCreate => "EffectMissileCreate"@,
            StateChange::GadgetCaptureOutlineShow => "GadgetCaptureOutlineShow"@,
            StateChange::GadgetCaptureSplitPercent => "GadgetCaptureSplitPercent"@,
            StateChange::GadgetCaptureOutlineHide => "GadgetCaptureOutlineHide"@,
            StateChange::GadgetCaptureOutlinePoint => "GadgetCaptureOutlinePoint"@,
            StateChange::Tick => "Tick"@,
            StateChange::Teleport => "Teleport"@,
            StateChange::Jump => "Jump"@,
            StateChange::Unknown => "Unknown"@,
        }
    }

    /// Reads a log byte; values outside the table fold to `Unknown`.
    pub fn from_byte(byte: u8) -> (r: Self)
        ensures
            r == Self::decode(byte),
            byte <= 87 ==> r.byte_of() == byte,
            byte > 87 ==> r == StateChange::Unknown,
    {
        match byte {
            0 => StateChange::Combat,
            1 => StateChange::EnterCombat,
            2 => StateChange::ExitCombat,
            3 => StateChange::ChangeUp,
            4 => StateChange::ChangeDead,
            5 => StateChange::ChangeDown,
            6 => StateChange::Spawn,
            7 => StateChange::Despawn,
            8 => StateChange::HealthUpdate,
            9 => StateChange::SquadCombatStart,
            10 => StateChange::SquadCombatEnd,
            11 => StateChange::WeaponSwap,
            12 => StateChange::MaxHealthUpdate,
            13 => StateChange::PointOfView,
            14 => StateChange::Language,
            15 => StateChange::GWBuild,
            16 => StateChange::ShardID,
            17 => StateChange::Reward,
            18 => StateChange::BuffInitial,
            19 => StateChange::Position,
            20 => StateChange::Velocity,
            21 => StateChange::Rotation,
            22 => StateChange::TeamChange,
            23 => StateChange::AttackTarget,
            24 => StateChange::Targetable,
            25 => StateChange::MapID,
            26 => StateChange::ReplInfo,
            27 => StateChange::StackActive,
            28 => StateChange::StackDeactive,
            29 => StateChange::Guild,
            30 => StateChange::BuffInfo,
            31 => StateChange::BuffFormula,
            32 => StateChange::SkillInfo,
            33 => StateChange::SkillTiming,
            34 => StateChange::BreakbarState,
            35 => StateChange::BreakbarPercent,
            36 => StateChange::Integrity,
            37 => StateChange::Marker,
            38 => StateChange::BarrierUpdate,
            39 => StateChange::StatReset,
            40 => StateChange::Extension,
            41 => StateChange::APIDelayed,
            42 => StateChange::InstanceStart,
            43 => StateChange::TickRate,
            44 => StateChange::Last90BeforeDown,
            45 => StateChange::Effect_45,
            46 => StateChange::IDToGUID,
            47 => StateChange::LogNPCUpdate,
            48 => StateChange::Idle,
            49 => StateChange::ExtensionCombat,
            50 => StateChange::FractalScale,
            51 => StateChange::Effect_51,
            52 => StateChange::RuleSet,
            53 => StateChange::SquadMarker,
            54 => StateChange::ArcBuild,
            55 => StateChange::Glider,
            56 => StateChange::StunBreak,
            57 => StateChange::MissileCreate,
            58 => StateChange::MissileLaunch,
            59 => StateChange::MissileRemove,
            60 => StateChange::EffectGroundCreate,
            61 => StateChange::EffectGroundRemove,
            62 => StateChange::EffectAgentCreate,
            63 => StateChange::EffectAgentRemove,
            64 => StateChange::AgentChange,
            65 => StateChange::MapChange,
            66 => StateChange::EarlyExit,
            67 => StateChange::AnimationStart,
            68 => StateChange::AnimationStop,
            69 => StateChange::BuffApply,
            70 => StateChange::BuffChange,
            71 => StateChange::BuffRemoveSingle,
            72 => StateChange::BuffRemoveAll,
            73 => StateChange::Transformation,
            74 => StateChange::WvWTeams,
            75 => StateChange::WvWObjectiveStatus,
            76 => StateChange::StealthChange,
            77 => StateChange::GadgetAnimation,
            78 => StateChange::GadgetNameVisible,
            79 => StateChange::EffectMissileCreate,
            80 => StateChange::GadgetCaptureOutlineShow,
            81 => StateChange::GadgetCaptureSplitPercent,
            82 => StateChange::GadgetCaptureOutlineHide,
            83 => StateChange::GadgetCaptureOutlinePoint,
            84 => StateChange::Tick,
            85 => StateChange::Teleport,
            86 => StateChange::Jump,
            87 => StateChange::Unknown,
            _ => StateChange::Unknown,
        }
    }

    /// The byte that stands for this value.
    pub fn to_byte(self) -> (r: u8)
        ensures
            r == self.byte_of(),
            Self::decode(r) == self,
    {
        match self {
            StateChange::Combat => 0,
            StateChange::EnterCombat => 1,
            StateChange::ExitCombat => 2,
            StateChange::ChangeUp => 3,
            StateChange::ChangeDead => 4,
            StateChange::ChangeDown => 5,
            StateChange::Spawn => 6,
            StateChange::Despawn => 7,
            StateChange::HealthUpdate => 8,
            StateChange::SquadCombatStart => 9,
            StateChange::SquadCombatEnd => 10,
            StateChange::WeaponSwap => 11,
            StateChange::MaxHealthUpdate => 12,
            StateChange::PointOfView => 13,
            StateChange::Language => 14,
            StateChange::GWBuild => 15,
            StateChange::ShardID => 16,
            StateChange::Reward => 17,
            StateChange::BuffInitial => 18,
            StateChange::Position => 19,
            StateChange::Velocity => 20,
            StateChange::Rotation => 21,
            StateChange::TeamChange => 22,
            StateChange::AttackTarget => 23,
            StateChange::Targetable => 24,
            StateChange::MapID => 25,
            StateChange::ReplInfo => 26,
            StateChange::StackActive => 27,
            StateChange::StackDeactive => 28,
            StateChange::Guild => 29,
            StateChange::BuffInfo => 30,
            StateChange::BuffFormula => 31,
            StateChange::SkillInfo => 32,
            StateChange::SkillTiming => 33,
            StateChange::BreakbarState => 34,
            StateChange::BreakbarPercent => 35,
            StateChange::Integrity => 36,
            StateChange::Marker => 37,
            StateChange::BarrierUpdate => 38,
            StateChange::StatReset => 39,
            StateChange::Extension => 40,
            StateChange::APIDelayed => 41,
            StateChange::InstanceStart => 42,
            StateChange::TickRate => 43,
            StateChange::Last90BeforeDown => 44,
            StateChange::Effect_45 => 45,
            StateChange::IDToGUID => 46,
            StateChange::LogNPCUpdate => 47,
            StateChange::Idle => 48,
            StateChange::ExtensionCombat => 49,
            StateChange::FractalScale => 50,
            StateChange::Effect_51 => 51,
            StateChange::RuleSet => 52,
            StateChange::SquadMarker => 53,
            StateChange::ArcBuild => 54,
            StateChange::Glider => 55,
            StateChange::StunBreak => 56,
            StateChange::MissileCreate => 57,
            StateChange::MissileLaunch => 58,
            StateChange::MissileRemove => 59,
            StateChange::EffectGroundCreate => 60,
            StateChange::EffectGroundRemove => 61,
            StateChange::EffectAgentCreate => 62,
            StateChange::EffectAgentRemove => 63,
            StateChange::AgentChange => 64,
            StateChange::MapChange => 65,
            StateChange::EarlyExit => 66,
            StateChange::AnimationStart => 67,
            StateChange::AnimationStop => 68,
            StateChange::BuffApply => 69,
            StateChange::BuffChange => 70,
            StateChange::BuffRemoveSingle => 71,
            StateChange::BuffRemoveAll => 72,
            StateChange::Transformation => 73,
            StateChange::WvWTeams => 74,
            StateChange::WvWObjectiveStatus => 75,
            StateChange::StealthChange => 76,
            StateChange::GadgetAnimation => 77,
            StateChange::GadgetNameVisible => 78,
            StateChange::EffectMissileCreate => 79,
            StateChange::GadgetCaptureOutlineShow => 80,
            StateChange::GadgetCaptureSplitPercent => 81,
            StateChange::GadgetCaptureOutlineHide => 82,
            StateChange::GadgetCaptureOutlinePoint => 83,
            StateChange::Tick => 84,
            StateChange::Teleport => 85,
            StateChange::Jump => 86,
            StateChange::Unknown => 87,
        }
    }

    /// The name of the value.
    pub fn csharp_name(self) -> (r: &'static str)
        ensures
            r@ == self.name_of(),
    {
        match self {
            StateChange::Combat => "Combat",
            StateChange::EnterCombat => "EnterCombat",
            StateChange::ExitCombat => "ExitCombat",
            StateChange::ChangeUp => "ChangeUp",
            StateChange::ChangeDead => "ChangeDead",
            StateChange::ChangeDown => "ChangeDown",
            StateChange::Spawn => "Spawn",
            StateChange::Despawn => "Despawn",
            StateChange::HealthUpdate => "HealthUpdate",
            StateChange::SquadCombatStart => "SquadCombatStart",
            StateChange::SquadCombatEnd => "SquadCombatEnd",
            StateChange::WeaponSwap => "WeaponSwap",
            StateChange::MaxHealthUpdate => "MaxHealthUpdate",
            StateChange::PointOfView => "PointOfView",
            StateChange::Language => "Language",
            StateChange::GWBuild => "GWBuild",
            StateChange::ShardID => "ShardID",
            StateChange::Reward => "Reward",
            StateChange::BuffInitial => "BuffInitial",
            StateChange::Position => "Position",
            StateChange::Velocity => "Velocity",
            StateChange::Rotation => "Rotation",
            StateChange::TeamChange => "TeamChange",
            StateChange::AttackTarget => "AttackTarget",
            StateChange::Targetable => "Targetable",
            StateChange::MapID => "MapID",
            StateChange::ReplInfo => "ReplInfo",
            StateChange::StackActive => "StackActive",
            StateChange::StackDeactive => "StackDeactive",
            StateChange::Guild => "Guild",
            StateChange::BuffInfo => "BuffInfo",
            StateChange::BuffFormula => "BuffFormula",
            StateChange::SkillInfo => "SkillInfo",
            StateChange::SkillTiming => "SkillTiming",
            StateChange::BreakbarState => "BreakbarState",
            StateChange::BreakbarPercent => "BreakbarPercent",
            StateChange::Integrity => "Integrity",
            StateChange::Marker => "Marker",
            StateChange::BarrierUpdate => "BarrierUpdate",
            StateChange::StatReset => "StatReset",
            StateChange::Extension => "Extension",
            StateChange::APIDelayed => "APIDelayed",
            StateChange::InstanceStart => "InstanceStart",
            StateChange::TickRate => "TickRate",
            StateChange::Last90BeforeDown => "Last90BeforeDown",
            StateChange::Effect_45 => "Effect_45",
            StateChange::IDToGUID => "IDToGUID",
            StateChange::LogNPCUpdate => "LogNPCUpdate",
            StateChange::Idle => "Idle",
            StateChange::ExtensionCombat => "ExtensionCombat",
            StateChange::FractalScale => "FractalScale",
            StateChange::Effect_51 => "Effect_51",
            StateChange::RuleSet => "RuleSet",
            StateChange::SquadMarker => "SquadMarker",
            StateChange::ArcBuild => "ArcBuild",
            StateChange::Glider => "Glider",
            StateChange::StunBreak => "StunBreak",
            StateChange::MissileCreate => "MissileCreate",
            StateChange::MissileLaunch => "MissileLaunch",
            StateChange::MissileRemove => "MissileRemove",
            StateChange::EffectGroundCreate => "EffectGroundCreate",
            StateChange::EffectGroundRemove => "EffectGroundRemove",
            StateChange::EffectAgentCreate => "EffectAgentCreate",
            StateChange::EffectAgentRemove => "EffectAgentRemove",
            StateChange::AgentChange => "AgentChange",
            StateChange::MapChange => "MapChange",
            StateChange::EarlyExit => "EarlyExit",
            StateChange::AnimationStart => "AnimationStart",
            StateChange::AnimationStop => "AnimationStop",
            StateChange::BuffApply => "BuffApply",
            StateChange::BuffChange => "BuffChange",
            StateChange::BuffRemoveSingle => "BuffRemoveSingle",
            StateChange::BuffRemoveAll => "BuffRemoveAll",
            StateChange::Transformation => "Transformation",
            StateChange::WvWTeams => "WvWTeams",
            StateChange::WvWObjectiveStatus => "WvWObjectiveStatus",
            StateChange::StealthChange => "StealthChange",
            StateChange::GadgetAnimation => "GadgetAnimation",
            StateChange::GadgetNameVisible => "GadgetNameVisible",
            StateChange::EffectMissileCreate => "EffectMissileCreate",
            StateChange::GadgetCaptureOutlineShow => "GadgetCaptureOutlineShow",
            StateChange::GadgetCaptureSplitPercent => "GadgetCaptureSplitPercent",
            StateChange::GadgetCaptureOutlineHide => "GadgetCaptureOutlineHide",
            StateChange::GadgetCaptureOutlinePoint => "GadgetCaptureOutlinePoint",
            StateChange::Tick => "Tick",
            StateChange::Teleport => "Teleport",
            StateChange::Jump => "Jump",
            StateChange::Unknown => "Unknown",
        }
    }
}

/// Kind of a log, as carried by squad combat start rows.
#[derive(Debug, Clone, Copy, PartialEq, Eq, Hash, Structural)]
pub enum LogType {
    NotSet,
    Auto,
    MapLog,
    Generic,
    Unknown,
}

impl LogType {
    /// The byte that stands for this value in a log.
    pub open spec fn byte_of(self) -> u8 {
        match self {
            LogType::NotSet => 0,
            LogType::Auto => 1,
            LogType::MapLog => 2,
            LogType::Generic => 3,
            LogType::Unknown => 4,
        }
    }

    /// The value a log byte stands for; bytes outside the table fold to `Unknown`.
    pub open spec fn decode(byte: u8) -> Self {
        match byte {
            0u8 => LogType::NotSet,
            1u8 => LogType::Auto,
            2u8 => LogType::MapLog,
            3u8 => LogType::Generic,
            4u8 => LogType::Unknown,
            _ => LogType::Unknown,
        }
    }

    /// The name of the value: its variant name, as it appears in log listings.
    pub open spec fn name_of(self) -> Seq<char> {
        match self {
            LogType::NotSet => "None"@,
            LogType::Auto => "Auto"@,
            LogType::MapLog => "Map"@,
            LogType::Generic => "Generic"@,
            LogType::Unknown => "Unknown"@,
        }
    }

    /// Reads a log byte; values outside the table fold to `Unknown`.
    pub fn from_byte(byte: u8) -> (r: Self)
        ensures
            r == Self::decode(byte),
            byte <= 4 ==> r.byte_of() == byte,
            byte > 4 ==> r == LogType::Unknown,
    {
        match byte {
            0 => LogType::NotSet,
            1 => LogType::Auto,
            2 => LogType::MapLog,
            3 => LogType::Generic,
            4 => LogType::Unknown,
            _ => LogType::Unknown,
        }
    }

    /// The byte that stands for this value.
    pub fn to_byte(self) -> (r: u8)
        ensures
            r == self.byte_of(),
            Self::decode(r) == self,
    {
        match self {
            LogType::NotSet => 0,
            LogType::Auto => 1,
            LogType::MapLog => 2,
            LogType::Generic => 3,
            LogType::Unknown => 4,
        }
    }

    /// The name of the value.
    pub fn csharp_name(self) -> (r: &'static str)
        ensures
            r@ == self.name_of(),
    {
        match self {
            LogType::NotSet => "None",
            LogType::Auto => "Auto",
            LogType::MapLog => "Map",
            LogType::Generic => "Generic",
            LogType::Unknown => "Unknown",
        }
    }
}

/// State of a defiance bar.
#[derive(Debug, Clone, Copy, PartialEq, Eq, Hash, Structural)]
pub enum BreakbarState {
    Active,
    Recover,
    Immune,
    NotSet,
    Unknown,
}

impl BreakbarState {
    /// The byte that stands for this value in a log.
    pub open spec fn byte_of(self) -> u8 {
        match self {
            BreakbarState::Active => 0,
            BreakbarState::Recover => 1,
            BreakbarState::Immune => 2,
            BreakbarState::NotSet => 3,
            BreakbarState::Unknown => 4,
        }
    }

    /// The value a log byte stands for; bytes outside the table fold to `Unknown`.
    pub open spec fn decode(byte: u8) -> Self {
        match byte {
            0u8 => BreakbarState::Active,
            1u8 => BreakbarState::Recover,
            2u8 => BreakbarState::Immune,
            3u8 => BreakbarState::NotSet,
            4u8 => BreakbarState::Unknown,
            _ => BreakbarState::Unknown,
        }
    }

    /// The name of the value: its variant name, as it appears in log listings.
    pub open spec fn name_of(self) -> Seq<char> {
        match self {
            BreakbarState::Active => "Active"@,
            BreakbarState::Recover => "Recover"@,
            BreakbarState::Immune => "Immune"@,
            BreakbarState::NotSet => "None"@,
            BreakbarState::Unknown => "Unknown"@,
        }
    }

    /// Reads a log byte; values outside the table fold to `Unknown`.
    pub fn from_byte(byte: u8) -> (r: Self)
        ensures
            r == Self::decode(byte),
            byte <= 4 ==> r.byte_of() == byte,
            byte > 4 ==> r == BreakbarState::Unknown,
    {
        match byte {
            0 => BreakbarState::Active,
            1 => BreakbarState::Recover,
            2 => BreakbarState::Immune,
            3 => BreakbarState::NotSet,
            4 => BreakbarState::Unknown,
            _ => BreakbarState::Unknown,
        }
    }

    /// The byte that stands for this value.
    pub fn to_byte(self) -> (r: u8)
        ensures
            r == self.byte_of(),
            Self::decode(r) == self,
    {
        match self {
            BreakbarState::Active => 0,
            BreakbarState::Recover => 1,
            BreakbarState::Immune => 2,
            BreakbarState::NotSet => 3,
            BreakbarState::Unknown => 4,
        }
    }

    /// The name of the value.
    pub fn csharp_name(self) -> (r: &'static str)
        ensures
            r@ == self.name_of(),
    {
        match self {
            BreakbarState::Active => "Active",
            BreakbarState::Recover => "Recover",
            BreakbarState::Immune => "Immune",
            BreakbarState::NotSet => "None",
            BreakbarState::Unknown => "Unknown",
        }
    }
}

/// Stacking behaviour of a buff.
#[derive(Debug, Clone, Copy, PartialEq, Eq, Hash, Structural)]
pub enum BuffStackType {
    StackingConditionalLoss,
    Queue,
    StackingUniquePerSrc,
    Regeneration,
    Stacking,
    Force,
    Unknown,
}

impl BuffStackType {
    /// The byte that stands for this value in a log.
    pub open spec fn byte_of(self) -> u8 {
        match self {
            BuffStackType::StackingConditionalLoss => 0,
            BuffStackType::Queue => 1,
            BuffStackType::StackingUniquePerSrc => 2,
            BuffStackType::Regeneration => 3,
            BuffStackType::Stacking => 4,
            BuffStackType::Force => 5,
            BuffStackType::Unknown => 6,
        }
    }

    /// The value a log byte stands for; bytes outside the table fold to `Unknown`.
    pub open spec fn decode(byte: u8) -> Self {
        match byte {
            0u8 => BuffStackType::StackingConditionalLoss,
            1u8 => BuffStackType::Queue,
            2u8 => BuffStackType::StackingUniquePerSrc,
            3u8 => BuffStackType::Regeneration,
            4u8 => BuffStackType::Stacking,
            5u8 => BuffStackType::Force,
            6u8 => BuffStackType::Unknown,
            _ => BuffStackType::Unknown,
        }
    }

    /// The name of the value: its variant name, as it appears in log listings.
    pub open spec fn name_of(self) -> Seq<char> {
        match self {
            BuffStackType::StackingConditionalLoss => "StackingConditionalLoss"@,
            BuffStackType::Queue => "Queue"@,
            BuffStackType::StackingUniquePerSrc => "StackingUniquePerSrc"@,
            BuffStackType::Regeneration => "Regeneration"@,
            BuffStackType::Stacking => "Stacking"@,
            BuffStackType::Force => "Force"@,
            BuffStackType::Unknown => "Unknown"@,
        }
    }

    /// Reads a log byte; values outside the table fold to `Unknown`.
    pub fn from_byte(byte: u8) -> (r: Self)
        ensures
            r == Self::decode(byte),
            byte <= 6 ==> r.byte_of() == byte,
            byte > 6 ==> r == BuffStackType::Unknown,
    {
        match byte {
            0 => BuffStackType::StackingConditionalLoss,
            1 => BuffStackType::Queue,
            2 => BuffStackType::StackingUniquePerSrc,
            3 => BuffStackType::Regeneration,
            4 => BuffStackType::Stacking,
            5 => BuffStackType::Force,
            6 => BuffStackType::Unknown,
            _ => BuffStackType::Unknown,
        }
    }

    /// The byte that stands for this value.
    pub fn to_byte(self) -> (r: u8)
        ensures
            r == self.byte_of(),
            Self::decode(r) == self,
    {
        match self {
            BuffStackType::StackingConditionalLoss => 0,
            BuffStackType::Queue => 1,
            BuffStackType::StackingUniquePerSrc => 2,
            BuffStackType::Regeneration => 3,
            BuffStackType::Stacking => 4,
            BuffStackType::Force => 5,
            BuffStackType::Unknown => 6,
        }
    }

    /// The name of the value.
    pub fn csharp_name(self) -> (r: &'static str)
        ensures
            r@ == self.name_of(),
    {
        match self {
            BuffStackType::StackingConditionalLoss => "StackingConditionalLoss",
            BuffStackType::Queue => "Queue",
            BuffStackType::StackingUniquePerSrc => "StackingUniquePerSrc",
            BuffStackType::Regeneration => "Regeneration",
            BuffStackType::Stacking => "Stacking",
            BuffStackType::Force => "Force",
            BuffStackType::Unknown => "Unknown",
        }
    }
}

/// Kind of content that an id-to-GUID row maps.
#[derive(Debug, Clone, Copy, PartialEq, Eq, Hash, Structural)]
pub enum ContentLocal {
    Effect,
    Marker,
    Skill,
    Species,
    Team,
    Emote,
    Transformation,
    Unknown,
}

impl ContentLocal {
    /// The byte that stands for this value in a log.
    pub open spec fn byte_of(self) -> u8 {
        match self {
            ContentLocal::Effect => 0,
            ContentLocal::Marker => 1,
            ContentLocal::Skill => 2,
            ContentLocal::Species => 3,
            ContentLocal::Team => 4,
            ContentLocal::Emote => 5,
            ContentLocal::Transformation => 6,
            ContentLocal::Unknown => 7,
        }
    }

    /// The value a log byte stands for; bytes outside the table fold to `Unknown`.
    pub open spec fn decode(byte: u8) -> Self {
        match byte {
            0u8 => ContentLocal::Effect,
            1u8 => ContentLocal::Marker,
            2u8 => ContentLocal::Skill,
            3u8 => ContentLocal::Species,
            4u8 => ContentLocal::Team,
            5u8 => ContentLocal::Emote,
            6u8 => ContentLocal::Transformation,
            7u8 => ContentLocal::Unknown,
            _ => ContentLocal::Unknown,
        }
    }

    /// The name of the value: its variant name, as it appears in log listings.
    pub open spec fn name_of(self) -> Seq<char> {
        match self {
            ContentLocal::Effect => "Effect"@,
            ContentLocal::Marker => "Marker"@,
            ContentLocal::Skill => "Skill"@,
            ContentLocal::Species => "Species"@,
            ContentLocal::Team => "Team"@,
            ContentLocal::Emote => "Emote"@,
            ContentLocal::Transformation => "Transformation"@,
            ContentLocal::Unknown => "Unknown"@,
        }
    }

    /// Reads a log byte; values outside the table fold to `Unknown`.
    pub fn from_byte(byte: u8) -> (r: Self)
        ensures
            r == Self::decode(byte),
            byte <= 7 ==> r.byte_of() == byte,
            byte > 7 ==> r == ContentLocal::Unknown,
    {
        match byte {
            0 => ContentLocal::Effect,
            1 => ContentLocal::Marker,
            2 => ContentLocal::Skill,
            3 => ContentLocal::Species,
            4 => ContentLocal::Team,
            5 => ContentLocal::Emote,
            6 => ContentLocal::Transformation,
            7 => ContentLocal::Unknown,
            _ => ContentLocal::Unknown,
        }
    }

    /// The byte that stands for this value.
    pub fn to_byte(self) -> (r: u8)
        ensures
            r == self.byte_of(),
            Self::decode(r) == self,
    {
        match self {
            ContentLocal::Effect => 0,
            ContentLocal::Marker => 1,
            ContentLocal::Skill => 2,
            ContentLocal::Species => 3,
            ContentLocal::Team => 4,
            ContentLocal::Emote => 5,
            ContentLocal::Transformation => 6,
            ContentLocal::Unknown => 7,
        }
    }

    /// The name of the value.
    pub fn csharp_name(self) -> (r: &'static str)
        ensures
            r@ == self.name_of(),
    {
        match self {
            ContentLocal::Effect => "Effect",
            ContentLocal::Marker => "Marker",
            ContentLocal::Skill => "Skill",
            ContentLocal::Species => "Species",
            ContentLocal::Team => "Team",
            ContentLocal::Emote => "Emote",
            ContentLocal::Transformation => "Transformation",
            ContentLocal::Unknown => "Unknown",
        }
    }
}

/// Friend-or-foe marker of a combat row.
#[derive(Debug, Clone, Copy, PartialEq, Eq, Hash, Structural)]
pub enum Iff {
    Friend,
    Foe,
    Unknown,
}

impl Iff {
    /// The byte that stands for this value in a log.
    pub open spec fn byte_of(self) -> u8 {
        match self {
            Iff::Friend => 0,
            Iff::Foe => 1,
            Iff::Unknown => 2,
        }
    }

    /// The value a log byte stands for; bytes outside the table fold to `Unknown`.
    pub open spec fn decode(byte: u8) -> Self {
        match byte {
            0u8 => Iff::Friend,
            1u8 => Iff::Foe,
            2u8 => Iff::Unknown,
            _ => Iff::Unknown,
        }
    }

    /// The name of the value: its variant name, as it appears in log listings.
    pub open spec fn name_of(self) -> Seq<char> {
        match self {
            Iff::Friend => "Friend"@,
            Iff::Foe => "Foe"@,
            Iff::Unknown => "Unknown"@,
        }
    }

    /// Reads a log byte; values outside the table fold to `Unknown`.
    pub fn from_byte(byte: u8) -> (r: Self)
        ensures
            r == Self::decode(byte),
            byte <= 2 ==> r.byte_of() == byte,
            byte > 2 ==> r == Iff::Unknown,
    {
        match byte {
            0 => Iff::Friend,
            1 => Iff::Foe,
            2 => Iff::Unknown,
            _ => Iff::Unknown,
        }
    }

    /// The byte that stands for this value.
    pub fn to_byte(self) -> (r: u8)
        ensures
            r == self.byte_of(),
            Self::decode(r) == self,
    {
        match self {
            Iff::Friend => 0,
            Iff::Foe => 1,
            Iff::Unknown => 2,
        }
    }

    /// The name of the value.
    pub fn csharp_name(self) -> (r: &'static str)
        ensures
            r@ == self.name_of(),
    {
        match self {
            Iff::Friend => "Friend",
            Iff::Foe => "Foe",
            Iff::Unknown => "Unknown",
        }
    }
}

/// Client language of the recording player.
#[derive(Debug, Clone, Copy, PartialEq, Eq, Hash, Structural)]
pub enum Language {
    English,
    Missing,
    French,
    German,
    Spanish,
    Chinese,
    Unknown,
}

impl Language {
    /// The byte that stands for this value in a log.
    pub open spec fn byte_of(self) -> u8 {
        match self {
            Language::English => 0,
            Language::Missing => 1,
            Language::French => 2,
            Language::German => 3,
            Language::Spanish => 4,
            Language::Chinese => 5,
            Language::Unknown => 6,
        }
    }

    /// The value a log byte stands for; bytes outside the table fold to `Unknown`.
    pub open spec fn decode(byte: u8) -> Self {
        match byte {
            0u8 => Language::English,
            1u8 => Language::Missing,
            2u8 => Language::French,
            3u8 => Language::German,
            4u8 => Language::Spanish,
            5u8 => Language::Chinese,
            6u8 => Language::Unknown,
            _ => Language::Unknown,
        }
    }

    /// The name of the value: its variant name, as it appears in log listings.
    pub open spec fn name_of(self) -> Seq<char> {
        match self {
            Language::English => "English"@,
            Language::Missing => "Missing"@,
            Language::French => "French"@,
            Language::German => "German"@,
            Language::Spanish => "Spanish"@,
            Language::Chinese => "Chinese"@,
            Language::Unknown => "Unknown"@,
        }
    }

    /// Reads a log byte; values outside the table fold to `Unknown`.
    pub fn from_byte(byte: u8) -> (r: Self)
        ensures
            r == Self::decode(byte),
            byte <= 6 ==> r.byte_of() == byte,
            byte > 6 ==> r == Language::Unknown,
    {
        match byte {
            0 => Language::English,
            1 => Language::Missing,
            2 => Language::French,
            3 => Language::German,
            4 => Language::Spanish,
            5 => Language::Chinese,
            6 => Language::Unknown,
            _ => Language::Unknown,
        }
    }

    /// The byte that stands for this value.
    pub fn to_byte(self) -> (r: u8)
        ensures
            r == self.byte_of(),
            Self::decode(r) == self,
    {
        match self {
            Language::English => 0,
            Language::Missing => 1,
            Language::French => 2,
            Language::German => 3,
            Language::Spanish => 4,
            Language::Chinese => 5,
            Language::Unknown => 6,
        }
    }

    /// The name of the value.
    pub fn csharp_name(self) -> (r: &'static str)
        ensures
            r@ == self.name_of(),
    {
        match self {
            Language::English => "English",
            Language::Missing => "Missing",
            Language::French => "French",
            Language::German => "German",
            Language::Spanish => "Spanish",
            Language::Chinese => "Chinese",
            Language::Unknown => "Unknown",
        }
    }
}

/// Index of a squad marker.
#[derive(Debug, Clone, Copy, PartialEq, Eq, Hash, Structural)]
pub enum SquadMarkerIndex {
    Arrow,
    Circle,
    Heart,
    Square,
    Star,
    Swirl,
    Triangle,
    X,
    Unknown,
}

impl SquadMarkerIndex {
    /// The byte that stands for this value in a log.
    pub open spec fn byte_of(self) -> u8 {
        match self {
            SquadMarkerIndex::Arrow => 0,
            SquadMarkerIndex::Circle => 1,
            SquadMarkerIndex::Heart => 2,
            SquadMarkerIndex::Square => 3,
            SquadMarkerIndex::Star => 4,
            SquadMarkerIndex::Swirl => 5,
            SquadMarkerIndex::Triangle => 6,
            SquadMarkerIndex::X => 7,
            SquadMarkerIndex::Unknown => 8,
        }
    }

    /// The value a log byte stands for; bytes outside the table fold to `Unknown`.
    pub open spec fn decode(byte: u8) -> Self {
        match byte {
            0u8 => SquadMarkerIndex::Arrow,
            1u8 => SquadMarkerIndex::Circle,
            2u8 => SquadMarkerIndex::Heart,
            3u8 => SquadMarkerIndex::Square,
            4u8 => SquadMarkerIndex::Star,
            5u8 => SquadMarkerIndex::Swirl,
            6u8 => SquadMarkerIndex::Triangle,
            7u8 => SquadMarkerIndex::X,
            8u8 => SquadMarkerIndex::Unknown,
            _ => SquadMarkerIndex::Unknown,
        }
    }

    /// The name of the value: its variant name, as it appears in log listings.
    pub open spec fn name_of(self) -> Seq<char> {
        match self {
            SquadMarkerIndex::Arrow => "Arrow"@,
            SquadMarkerIndex::Circle => "Circle"@,
            SquadMarkerIndex::Heart => "Heart"@,
            SquadMarkerIndex::Square => "Square"@,
            SquadMarkerIndex::Star => "Star"@,
            SquadMarkerIndex::Swirl => "Swirl"@,
            SquadMarkerIndex::Triangle => "Triangle"@,
            SquadMarkerIndex::X => "X"@,
            SquadMarkerIndex::Unknown => "Unknown"@,
        }
    }

    /// Reads a log byte; values outside the table fold to `Unknown`.
    pub fn from_byte(byte: u8) -> (r: Self)
        ensures
            r == Self::decode(byte),
            byte <= 8 ==> r.byte_of() == byte,
            byte > 8 ==> r == SquadMarkerIndex::Unknown,
    {
        match byte {
            0 => SquadMarkerIndex::Arrow,
            1 => SquadMarkerIndex::Circle,
            2 => SquadMarkerIndex::Heart,
            3 => SquadMarkerIndex::Square,
            4 => SquadMarkerIndex::Star,
            5 => SquadMarkerIndex::Swirl,
            6 => SquadMarkerIndex::Triangle,
            7 => SquadMarkerIndex::X,
            8 => SquadMarkerIndex::Unknown,
            _ => SquadMarkerIndex::Unknown,
        }
    }

    /// The byte that stands for this value.
    pub fn to_byte(self) -> (r: u8)
        ensures
            r == self.byte_of(),
            Self::decode(r) == self,
    {
        match self {
            SquadMarkerIndex::Arrow => 0,
            SquadMarkerIndex::Circle => 1,
            SquadMarkerIndex::Heart => 2,
            SquadMarkerIndex::Square => 3,
            SquadMarkerIndex::Star => 4,
            SquadMarkerIndex::Swirl => 5,
            SquadMarkerIndex::Triangle => 6,
            SquadMarkerIndex::X => 7,
            SquadMarkerIndex::Unknown => 8,
        }
    }

    /// The name of the value.
    pub fn csharp_name(self) -> (r: &'static str)
        ensures
            r@ == self.name_of(),
    {
        match self {
            SquadMarkerIndex::Arrow => "Arrow",
            SquadMarkerIndex::Circle => "Circle",
            SquadMarkerIndex::Heart => "Heart",
            SquadMarkerIndex::Square => "Square",
            SquadMarkerIndex::Star => "Star",
            SquadMarkerIndex::Swirl => "Swirl",
            SquadMarkerIndex::Triangle => "Triangle",
            SquadMarkerIndex::X => "X",
            SquadMarkerIndex::Unknown => "Unknown",
        }
    }
}

/// Action of a skill timing row.
#[derive(Debug, Clone, Copy, PartialEq, Eq, Hash, Structural)]
pub enum SkillAction {
    EffectHappened,
    AnimationCompleted,
    Unknown,
}

impl SkillAction {
    /// The byte that stands for this value in a log.
    pub open spec fn byte_of(self) -> u8 {
        match self {
            SkillAction::EffectHappened => 4,
            SkillAction::AnimationCompleted => 5,
            SkillAction::Unknown => 255,
        }
    }

    /// The value a log byte stands for; bytes outside the table fold to `Unknown`.
    pub open spec fn decode(byte: u8) -> Self {
        match byte {
            4u8 => SkillAction::EffectHappened,
            5u8 => SkillAction::AnimationCompleted,
            255u8 => SkillAction::Unknown,
            _ => SkillAction::Unknown,
        }
    }

    /// The name of the value: its variant name, as it appears in log listings.
    pub open spec fn name_of(self) -> Seq<char> {
        match self {
            SkillAction::EffectHappened => "EffectHappened"@,
            SkillAction::AnimationCompleted => "AnimationCompleted"@,
            SkillAction::Unknown => "Unknown"@,
        }
    }

    /// Reads a log byte; values outside the table fold to `Unknown`.
    pub fn from_byte(byte: u8) -> (r: Self)
        ensures
            r == Self::decode(byte),
    {
        match byte {
            4 => SkillAction::EffectHappened,
            5 => SkillAction::AnimationCompleted,
            255 => SkillAction::Unknown,
            _ => SkillAction::Unknown,
        }
    }

    /// The byte that stands for this value.
    pub fn to_byte(self) -> (r: u8)
        ensures
            r == self.byte_of(),
            Self::decode(r) == self,
    {
        match self {
            SkillAction::EffectHappened => 4,
            SkillAction::AnimationCompleted => 5,
            SkillAction::Unknown => 255,
        }
    }

    /// The name of the value.
    pub fn csharp_name(self) -> (r: &'static str)
        ensures
            r@ == self.name_of(),
    {
        match self {
            SkillAction::EffectHappened => "EffectHappened",
            SkillAction::AnimationCompleted => "AnimationCompleted",
            SkillAction::Unknown => "Unknown",
        }
    }
}


/// Low byte of an integer (two's complement truncation).
pub open spec fn low_byte(value: i32) -> u8 {
    value as u8
}

impl LogType {
    /// The log type a 32-bit field stands for.
    pub open spec fn of_int(value: i32) -> Self {
        if value < 4 { Self::decode(low_byte(value)) } else { LogType::Unknown }
    }

    /// Decodes a log type carried in a 32-bit field: values below `Unknown`
    /// use their low byte, every other value is `Unknown`.
    pub fn from_csharp_int(value: i32) -> (r: Self)
        ensures
            r == Self::of_int(value),
    {
        if value < 4 {
            Self::from_byte(value as u8)
        } else {
            LogType::Unknown
        }
    }
}

impl BreakbarState {
    /// The defiance bar state a 32-bit field stands for.
    pub open spec fn of_int(value: i32) -> Self {
        if value < 4 { Self::decode(low_byte(value)) } else { BreakbarState::Unknown }
    }

    /// Decodes a defiance bar state carried in a 32-bit field: values below
    /// `Unknown` use their low byte, every other value is `Unknown`.
    pub fn from_csharp_int(value: i32) -> (r: Self)
        ensures
            r == Self::of_int(value),
    {
        if value < 4 {
            Self::from_byte(value as u8)
        } else {
            BreakbarState::Unknown
        }
    }
}

impl Language {
    /// Display name of the language.
    pub open spec fn display_of(self) -> Seq<char> {
        self.name_of()
    }

    /// Display name of the language (the variant's own name).
    pub fn display_name(self) -> (r: &'static str)
        ensures
            r@ == self.display_of(),
    {
        match self {
            Language::English => "English",
            Language::Missing => "Missing",
            Language::French => "French",
            Language::German => "German",
            Language::Spanish => "Spanish",
            Language::Chinese => "Chinese",
            Language::Unknown => "Unknown",
        }
    }
}

} // verus!
