//! Professions and elite specializations, and their local decoding from an
//! agent's profession and elite fields.

use vstd::prelude::*;
use crate::parse::models::RawAgentKind;

verus! {

/// A profession or elite specialization; `Npc`, `Gadget` and `Unknown` for
/// the rest.
#[derive(Debug, Clone, Copy, PartialEq, Eq, Hash, Structural)]
pub enum Spec {
    Elementalist,
    Tempest,
    Weaver,
    Catalyst,
    Evoker,
    Engineer,
    Scrapper,
    Holosmith,
    Mechanist,
    Amalgam,
    Guardian,
    Dragonhunter,
    Firebrand,
    Willbender,
    Luminary,
    Mesmer,
    Chronomancer,
    Mirage,
    Virtuoso,
    Troubadour,
    Necromancer,
    Reaper,
    Scourge,
    Harbinger,
    Ritualist,
    Ranger,
    Druid,
    Soulbeast,
    Untamed,
    Galeshot,
    Revenant,
    Herald,
    Renegade,
    Vindicator,
    Conduit,
    Thief,
    Daredevil,
    Deadeye,
    Specter,
    Antiquary,
    Warrior,
    Berserker,
    Spellbreaker,
    Bladesworn,
    Paragon,
    Npc,
    Gadget,
    Unknown,
}

impl Spec {
    /// The name logs and reports use for the value.
    pub open spec fn name_of(self) -> Seq<char> {
        match self {
            Spec::Elementalist => "Elementalist"@,
            Spec::Tempest => "Tempest"@,
            Spec::Weaver => "Weaver"@,
            Spec::Catalyst => "Catalyst"@,
            Spec::Evoker => "Evoker"@,
            Spec::Engineer => "Engineer"@,
            Spec::Scrapper => "Scrapper"@,
            Spec::Holosmith => "Holosmith"@,
            Spec::Mechanist => "Mechanist"@,
            Spec::Amalgam => "Amalgam"@,
            Spec::Guardian => "Guardian"@,
            Spec::Dragonhunter => "Dragonhunter"@,
            Spec::Firebrand => "Firebrand"@,
            Spec::Willbender => "Willbender"@,
            Spec::Luminary => "Luminary"@,
            Spec::Mesmer => "Mesmer"@,
            Spec::Chronomancer => "Chronomancer"@,
            Spec::Mirage => "Mirage"@,
            Spec::Virtuoso => "Virtuoso"@,
            Spec::Troubadour => "Troubadour"@,
            Spec::Necromancer => "Necromancer"@,
            Spec::Reaper => "Reaper"@,
            Spec::Scourge => "Scourge"@,
            Spec::Harbinger => "Harbinger"@,
            Spec::Ritualist => "Ritualist"@,
            Spec::Ranger => "Ranger"@,
            Spec::Druid => "Druid"@,
            Spec::Soulbeast => "Soulbeast"@,
            Spec::Untamed => "Untamed"@,
            Spec::Galeshot => "Galeshot"@,
            Spec::Revenant => "Revenant"@,
            Spec::Herald => "Herald"@,
            Spec::Renegade => "Renegade"@,
            Spec::Vindicator => "Vindicator"@,
            Spec::Conduit => "Conduit"@,
            Spec::Thief => "Thief"@,
            Spec::Daredevil => "Daredevil"@,
            Spec::Deadeye => "Deadeye"@,
            Spec::Specter => "Specter"@,
            Spec::Antiquary => "Antiquary"@,
            Spec::Warrior => "Warrior"@,
            Spec::Berserker => "Berserker"@,
            Spec::Spellbreaker => "Spellbreaker"@,
            Spec::Bladesworn => "Bladesworn"@,
            Spec::Paragon => "Paragon"@,
            Spec::Npc => "NPC"@,
            Spec::Gadget => "GDG"@,
            Spec::Unknown => "Unknown"@,
        }
    }

    pub fn csharp_name(self) -> (r: &'static str)
        ensures
            r@ == self.name_of(),
    {
        match self {
            Spec::Elementalist => "Elementalist",
            Spec::Tempest => "Tempest",
            Spec::Weaver => "Weaver",
            Spec::Catalyst => "Catalyst",
            Spec::Evoker => "Evoker",
            Spec::Engineer => "Engineer",
            Spec::Scrapper => "Scrapper",
            Spec::Holosmith => "Holosmith",
            Spec::Mechanist => "Mechanist",
            Spec::Amalgam => "Amalgam",
            Spec::Guardian => "Guardian",
            Spec::Dragonhunter => "Dragonhunter",
            Spec::Firebrand => "Firebrand",
            Spec::Willbender => "Willbender",
            Spec::Luminary => "Luminary",
            Spec::Mesmer => "Mesmer",
            Spec::Chronomancer => "Chronomancer",
            Spec::Mirage => "Mirage",
            Spec::Virtuoso => "Virtuoso",
            Spec::Troubadour => "Troubadour",
            Spec::Necromancer => "Necromancer",
            Spec::Reaper => "Reaper",
            Spec::Scourge => "Scourge",
            Spec::Harbinger => "Harbinger",
            Spec::Ritualist => "Ritualist",
            Spec::Ranger => "Ranger",
            Spec::Druid => "Druid",
            Spec::Soulbeast => "Soulbeast",
            Spec::Untamed => "Untamed",
            Spec::Galeshot => "Galeshot",
            Spec::Revenant => "Revenant",
            Spec::Herald => "Herald",
            Spec::Renegade => "Renegade",
            Spec::Vindicator => "Vindicator",
            Spec::Conduit => "Conduit",
            Spec::Thief => "Thief",
            Spec::Daredevil => "Daredevil",
            Spec::Deadeye => "Deadeye",
            Spec::Specter => "Specter",
            Spec::Antiquary => "Antiquary",
            Spec::Warrior => "Warrior",
            Spec::Berserker => "Berserker",
            Spec::Spellbreaker => "Spellbreaker",
            Spec::Bladesworn => "Bladesworn",
            Spec::Paragon => "Paragon",
            Spec::Npc => "NPC",
            Spec::Gadget => "GDG",
            Spec::Unknown => "Unknown",
        }
    }

    /// The profession of an elite specialization; any other value is its own base.
    pub open spec fn base_of(self) -> Spec {
        match self {
            Spec::Tempest => Spec::Elementalist,
            Spec::Weaver => Spec::Elementalist,
            Spec::Catalyst => Spec::Elementalist,
            Spec::Evoker => Spec::Elementalist,
            Spec::Scrapper => Spec::Engineer,
            Spec::Holosmith => Spec::Engineer,
            Spec::Mechanist => Spec::Engineer,
            Spec::Amalgam => Spec::Engineer,
            Spec::Dragonhunter => Spec::Guardian,
            Spec::Firebrand => Spec::Guardian,
            Spec::Willbender => Spec::Guardian,
            Spec::Luminary => Spec::Guardian,
            Spec::Chronomancer => Spec::Mesmer,
            Spec::Mirage => Spec::Mesmer,
            Spec::Virtuoso => Spec::Mesmer,
            Spec::Troubadour => Spec::Mesmer,
            Spec::Reaper => Spec::Necromancer,
            Spec::Scourge => Spec::Necromancer,
            Spec::Harbinger => Spec::Necromancer,
            Spec::Ritualist => Spec::Necromancer,
            Spec::Druid => Spec::Ranger,
            Spec::Soulbeast => Spec::Ranger,
            Spec::Untamed => Spec::Ranger,
            Spec::Galeshot => Spec::Ranger,
            Spec::Herald => Spec::Revenant,
            Spec::Renegade => Spec::Revenant,
            Spec::Vindicator => Spec::Revenant,
            Spec::Conduit => Spec::Revenant,
            Spec::Daredevil => Spec::Thief,
            Spec::Deadeye => Spec::Thief,
            Spec::Specter => Spec::Thief,
            Spec::Antiquary => Spec::Thief,
            Spec::Berserker => Spec::Warrior,
            Spec::Spellbreaker => Spec::Warrior,
            Spec::Bladesworn => Spec::Warrior,
            Spec::Paragon => Spec::Warrior,
            other => other,
        }
    }

    pub fn base_spec(self) -> (r: Spec)
        ensures
            r == self.base_of(),
    {
        match self {
            Spec::Galeshot | Spec::Untamed | Spec::Soulbeast | Spec::Druid => Spec::Ranger,
            Spec::Amalgam | Spec::Mechanist | Spec::Holosmith | Spec::Scrapper => Spec::Engineer,
            Spec::Antiquary | Spec::Specter | Spec::Deadeye | Spec::Daredevil => Spec::Thief,
            Spec::Evoker | Spec::Catalyst | Spec::Weaver | Spec::Tempest => Spec::Elementalist,
            Spec::Troubadour | Spec::Virtuoso | Spec::Mirage | Spec::Chronomancer => Spec::Mesmer,
            Spec::Ritualist | Spec::Harbinger | Spec::Scourge | Spec::Reaper => Spec::Necromancer,
            Spec::Paragon | Spec::Bladesworn | Spec::Spellbreaker | Spec::Berserker => Spec::Warrior,
            Spec::Luminary | Spec::Willbender | Spec::Firebrand | Spec::Dragonhunter => Spec::Guardian,
            Spec::Conduit | Spec::Vindicator | Spec::Renegade | Spec::Herald => Spec::Revenant,
            other => other,
        }
    }
}

/// Local decoding: elite `0xFFFFFFFF` marks a non-player (a gadget when the
/// high 16 bits of the profession are all set); elite 0 gives the nine base
/// professions and elite 1 their first elite specializations; anything else
/// needs the specialization catalogue and is `Unknown` here.
pub open spec fn spec_of_prof_elite(prof: u32, elite: u32) -> Spec {
    if elite == 0xFFFF_FFFF {
        if prof / 0x1_0000 == 0xFFFF {
            Spec::Gadget
        } else {
            Spec::Npc
        }
    } else if elite == 0 {
        if prof == 1 {
            Spec::Guardian
        } else if prof == 2 {
            Spec::Warrior
        } else if prof == 3 {
            Spec::Engineer
        } else if prof == 4 {
            Spec::Ranger
        } else if prof == 5 {
            Spec::Thief
        } else if prof == 6 {
            Spec::Elementalist
        } else if prof == 7 {
            Spec::Mesmer
        } else if prof == 8 {
            Spec::Necromancer
        } else if prof == 9 {
            Spec::Revenant
        } else {
            Spec::Unknown
        }
    } else if elite == 1 {
        if prof == 1 {
            Spec::Dragonhunter
        } else if prof == 2 {
            Spec::Berserker
        } else if prof == 3 {
            Spec::Scrapper
        } else if prof == 4 {
            Spec::Druid
        } else if prof == 5 {
            Spec::Daredevil
        } else if prof == 6 {
            Spec::Tempest
        } else if prof == 7 {
            Spec::Chronomancer
        } else if prof == 8 {
            Spec::Reaper
        } else if prof == 9 {
            Spec::Herald
        } else {
            Spec::Unknown
        }
    } else {
        Spec::Unknown
    }
}

/// See [`spec_of_prof_elite`].
pub fn spec_from_prof_elite(prof: u32, elite: u32) -> (r: Spec)
    ensures
        r == spec_of_prof_elite(prof, elite),
{
    if elite == 0xFFFF_FFFF {
        return if prof & 0xFFFF_0000 == 0xFFFF_0000 {
            assert(prof & 0xFFFF_0000 == 0xFFFF_0000 <==> prof / 0x1_0000 == 0xFFFF) by (bit_vector);
            Spec::Gadget
        } else {
            assert(prof & 0xFFFF_0000 == 0xFFFF_0000 <==> prof / 0x1_0000 == 0xFFFF) by (bit_vector);
            Spec::Npc
        };
    }
    match elite {
        0 => match prof {
            1 => Spec::Guardian,
            2 => Spec::Warrior,
            3 => Spec::Engineer,
            4 => Spec::Ranger,
            5 => Spec::Thief,
            6 => Spec::Elementalist,
            7 => Spec::Mesmer,
            8 => Spec::Necromancer,
            9 => Spec::Revenant,
            _ => Spec::Unknown,
        },
        1 => match prof {
            1 => Spec::Dragonhunter,
            2 => Spec::Berserker,
            3 => Spec::Scrapper,
            4 => Spec::Druid,
            5 => Spec::Daredevil,
            6 => Spec::Tempest,
            7 => Spec::Chronomancer,
            8 => Spec::Reaper,
            9 => Spec::Herald,
            _ => Spec::Unknown,
        },
        _ => Spec::Unknown,
    }
}

pub open spec fn spec_of_kind(kind: RawAgentKind) -> Spec {
    match kind {
        RawAgentKind::Player => Spec::Unknown,
        RawAgentKind::Npc => Spec::Npc,
        RawAgentKind::Gadget => Spec::Gadget,
    }
}

impl From<RawAgentKind> for Spec {
    fn from(kind: RawAgentKind) -> (r: Spec) {
        match kind {
            RawAgentKind::Player => Spec::Unknown,
            RawAgentKind::Npc => Spec::Npc,
            RawAgentKind::Gadget => Spec::Gadget,
        }
    }
}

impl vstd::std_specs::convert::FromSpecImpl<RawAgentKind> for Spec {
    open spec fn obeys_from_spec() -> bool {
        true
    }

    open spec fn from_spec(kind: RawAgentKind) -> Spec {
        spec_of_kind(kind)
    }
}

/// Decoding of (profession, elite) pairs, for catalogues of specializations.
pub trait SpecCatalog {
    /// The specialization that this catalogue gives (profession, elite).
    spec fn decoded(&self, prof: u32, elite: u32) -> Spec;

    /// Decodes (profession, elite).
    fn spec_of(&self, prof: u32, elite: u32) -> (r: Spec)
        ensures
            r == self.decoded(prof, elite),
    ;
}

/// The catalogue without specialization list: local decoding only.
pub struct NoSpecCatalog;

impl SpecCatalog for NoSpecCatalog {
    open spec fn decoded(&self, prof: u32, elite: u32) -> Spec {
        spec_of_prof_elite(prof, elite)
    }

    fn spec_of(&self, prof: u32, elite: u32) -> (r: Spec)
        ensures
            r == spec_of_prof_elite(prof, elite),
    {
        spec_from_prof_elite(prof, elite)
    }
}

} // verus!
