use gw2ei::model::spec::{spec_from_prof_elite, NoSpecCatalog, Spec, SpecCatalog};
use gw2ei::parse::models::RawAgentKind;

#[test]
fn local_spec_decoding() {
    assert_eq!(spec_from_prof_elite(0xFFFF_1234, u32::MAX), Spec::Gadget);
    assert_eq!(spec_from_prof_elite(1234, u32::MAX), Spec::Npc);
    assert_eq!(spec_from_prof_elite(1, 0), Spec::Guardian);
    assert_eq!(spec_from_prof_elite(9, 0), Spec::Revenant);
    assert_eq!(spec_from_prof_elite(2, 1), Spec::Berserker);
    assert_eq!(spec_from_prof_elite(0, 0), Spec::Unknown);
    assert_eq!(spec_from_prof_elite(1, 62), Spec::Unknown);
}

#[test]
fn base_spec_map() {
    assert_eq!(Spec::Dragonhunter.base_spec(), Spec::Guardian);
    assert_eq!(Spec::Catalyst.base_spec(), Spec::Elementalist);
    assert_eq!(Spec::Npc.base_spec(), Spec::Npc);
    assert_eq!(Spec::Unknown.base_spec(), Spec::Unknown);
}

#[test]
fn spec_names_and_kinds() {
    assert_eq!(Spec::Npc.csharp_name(), "NPC");
    assert_eq!(Spec::Gadget.csharp_name(), "GDG");
    assert_eq!(Spec::Firebrand.csharp_name(), "Firebrand");
    assert_eq!(Spec::from(RawAgentKind::Player), Spec::Unknown);
    assert_eq!(Spec::from(RawAgentKind::Npc), Spec::Npc);
    assert_eq!(Spec::from(RawAgentKind::Gadget), Spec::Gadget);
    assert_eq!(NoSpecCatalog.spec_of(4, 1), Spec::Druid);
    assert_eq!(spec_from_prof_elite(0xFFFE_0001, u32::MAX), Spec::Npc);
}
