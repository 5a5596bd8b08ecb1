//! Agents built from the agent records of a log: species id, kind, and the
//! character / account / subgroup fields packed NUL-separated in the name.

use vstd::prelude::*;
use vstd::string::StrSliceExecFns;
use crate::model::agent::{AgentItem, AgentTable, AgentType, AgentId, NO_AGENT, NON_IDENTIFIED, live, agent_at};
use crate::model::spec::{Spec, SpecCatalog, NoSpecCatalog, spec_of_prof_elite};
use crate::parse::models::EvtcRawAgent;
use crate::parse::arc_build::{
    index_of, left_of, right_of, parse_i32, to_chars, sub_chars, find_char, parse_i32_exec,
    lemma_index_of,
};
use crate::text::{lossy_utf8, digit_char, decimal, signed_decimal};

verus! {

// ===== the name fields =====

/// The first NUL-separated field of a name.
pub open spec fn field0(s: Seq<char>) -> Seq<char> {
    left_of(s, '\0')
}

/// The name after its first NUL.
pub open spec fn after_field0(s: Seq<char>) -> Seq<char> {
    right_of(s, '\0')
}

/// The second field.
pub open spec fn field1(s: Seq<char>) -> Seq<char> {
    left_of(after_field0(s), '\0')
}

/// The third field.
pub open spec fn field2(s: Seq<char>) -> Seq<char> {
    left_of(right_of(after_field0(s), '\0'), '\0')
}

/// The name has at least two fields.
pub open spec fn has_field1(s: Seq<char>) -> bool {
    index_of(s, '\0') is Some
}

/// The name has at least three fields.
pub open spec fn has_field2(s: Seq<char>) -> bool {
    has_field1(s) && index_of(after_field0(s), '\0') is Some
}

/// `s` without its leading colons.
pub open spec fn trim_colons(s: Seq<char>) -> Seq<char>
    decreases s.len(),
{
    if s.len() > 0 && s[0] == ':' {
        trim_colons(s.drop_first())
    } else {
        s
    }
}

/// `p` occurs in `s`.
pub open spec fn has_sub(s: Seq<char>, p: Seq<char>) -> bool {
    exists|i: int| 0 <= i && i + p.len() <= s.len() && #[trigger] s.subrange(i, i + p.len()) == p
}

/// The name carries `ch{id}-` or `gd{id}-`, the marker of an unnamed entity.
pub open spec fn unnamed_marker(s: Seq<char>, id: i32) -> bool {
    has_sub(s, seq!['c', 'h'] + signed_decimal(id as int) + seq!['-'])
        || has_sub(s, seq!['g', 'd'] + signed_decimal(id as int) + seq!['-'])
}

/// Species id of an agent record: the profession of an NPC (0 when it does
/// not fit 16 bits), the low 16 profession bits of a gadget, 0 for players.
pub open spec fn raw_species(prof: u32, spec: Spec) -> i32 {
    match spec {
        Spec::Npc => if prof > 0xFFFF {
            0
        } else {
            prof as i32
        },
        Spec::Gadget => (prof % 0x1_0000) as i32,
        _ => NON_IDENTIFIED,
    }
}

/// A player whose name lacks the account or subgroup field, or whose
/// character field holds a `-`, is not a squad member.
pub open spec fn demoted(s: Seq<char>) -> bool {
    !has_field1(s) || field1(s).len() == 0 || (has_field2(s) && (field2(s).len() == 0
        || index_of(field0(s), '-') is Some))
}

/// Kind of agent of a record with name `s` and specialization `spec`.
pub open spec fn raw_type(s: Seq<char>, spec: Spec) -> AgentType {
    match spec {
        Spec::Npc => AgentType::StableSpecies,
        Spec::Gadget => AgentType::VolatileSpecies,
        _ => if demoted(s) {
            AgentType::NonSquadPlayer
        } else {
            AgentType::Player
        },
    }
}

/// `a` is the agent built from `raw` with specialization `spec`.
pub open spec fn made_from_raw(a: AgentItem, raw: EvtcRawAgent, spec: Spec) -> bool {
    let s = lossy_utf8(raw.name@);
    let ty = raw_type(s, spec);
    &&& a.address == raw.address
    &&& a.name@ == s
    &&& a.agent_type == ty
    &&& a.spec == spec
    &&& a.base_spec == spec.base_of()
    &&& a.id == raw_species(raw.prof, spec)
    &&& a.instid == 0
    &&& a.toughness == raw.toughness
    &&& a.healing == raw.healing
    &&& a.condition == raw.condition
    &&& a.concentration == raw.concentration
    &&& a.hitbox_width == raw.hitbox_width_raw * 2
    &&& a.hitbox_height == raw.hitbox_height_raw * 2
    &&& a.first_aware == i64::MAX
    &&& a.last_aware == i64::MAX
    &&& a.master == NO_AGENT
    &&& a.englobing == NO_AGENT
    &&& a.englobed@.len() == 0
    &&& a.regrouped@.len() == 0
    &&& !a.is_fake
    &&& !a.is_not_in_squad_friendly_player
    &&& !a.is_unknown
    &&& a.character@ == field0(s)
    &&& if ty == AgentType::Player {
        a.account matches Some(acc) && acc@ == trim_colons(field1(s))
    } else {
        a.account is None
    }
    &&& a.group == if ty == AgentType::Player && has_field2(s) {
        parse_i32(field2(s))
    } else {
        None
    }
    &&& a.unamed == unnamed_marker(s, a.id)
}

// ===== executable pieces =====

/// `s[lo..hi]` as a new string.
fn string_part(s: &String, lo: usize, hi: usize) -> (r: String)
    requires
        lo <= hi <= s@.len(),
    ensures
        r@ == s@.subrange(lo as int, hi as int),
{
    s.as_str().substring_char(lo, hi).to_owned()
}

fn digit_of(d: u32) -> (c: char)
    requires
        d < 10,
    ensures
        c == digit_char(d as int),
{
    if d == 0 {
        '0'
    } else if d == 1 {
        '1'
    } else if d == 2 {
        '2'
    } else if d == 3 {
        '3'
    } else if d == 4 {
        '4'
    } else if d == 5 {
        '5'
    } else if d == 6 {
        '6'
    } else if d == 7 {
        '7'
    } else if d == 8 {
        '8'
    } else {
        '9'
    }
}

/// Decimal digits of `n`.
fn decimal_chars(n: u32) -> (r: Vec<char>)
    ensures
        r@ == decimal(n as nat),
    decreases n,
{
    if n < 10 {
        let mut v: Vec<char> = Vec::new();
        v.push(digit_of(n));
        assert(v@ =~= decimal(n as nat));
        v
    } else {
        let mut v = decimal_chars(n / 10);
        v.push(digit_of(n % 10));
        v
    }
}

/// `p` occurs in `s`.
fn contains_chars(s: &Vec<char>, p: &Vec<char>) -> (r: bool)
    ensures
        r == has_sub(s@, p@),
{
    if p.len() == 0 {
        assert(s@.subrange(0, 0 + p@.len() as int) =~= p@);
        return true;
    }
    if p.len() > s.len() {
        return false;
    }
    let n = s.len();
    let last = n - p.len();
    let mut i: usize = 0;
    while i <= last
        invariant
            n == s@.len(),
            last + p@.len() == s@.len(),
            p@.len() > 0,
            i <= last + 1,
            forall|k: int| 0 <= k < i ==> #[trigger] s@.subrange(k, k + p@.len()) != p@,
        decreases last + 1 - i,
    {
        let mut j: usize = 0;
        while j < p.len() && s[i + j] == p[j]
            invariant
                j <= p@.len(),
                i <= last,
                n == s@.len(),
                last + p@.len() == n,
                forall|m: int| 0 <= m < j ==> s@[i + m] == p@[m],
            decreases p@.len() - j,
        {
            j = j + 1;
        }
        if j == p.len() {
            assert(s@.subrange(i as int, i + p@.len()) =~= p@);
            return true;
        }
        assert(s@.subrange(i as int, i + p@.len())[j as int] != p@[j as int]);
        i = i + 1;
    }
    assert forall|k: int| 0 <= k && k + p@.len() <= s@.len() implies #[trigger] s@.subrange(k, k + p@.len()) != p@ by {
        assert(k < i);
    }
    false
}

/// `prefix`, the decimal text of `id` and `-`.
fn marker(a: char, b: char, id: u32) -> (r: Vec<char>)
    ensures
        r@ == seq![a, b] + decimal(id as nat) + seq!['-'],
{
    let mut v: Vec<char> = Vec::new();
    v.push(a);
    v.push(b);
    let mut d = decimal_chars(id);
    v.append(&mut d);
    v.push('-');
    assert(v@ =~= seq![a, b] + decimal(id as nat) + seq!['-']);
    v
}

/// Number of leading colons of `v`, with what the trimming leaves.
fn leading_colons(v: &Vec<char>) -> (k: usize)
    ensures
        k <= v@.len(),
        trim_colons(v@) == v@.subrange(k as int, v@.len() as int),
{
    let mut k: usize = 0;
    assert(v@.subrange(0, v@.len() as int) =~= v@);
    while k < v.len() && v[k] == ':'
        invariant
            k <= v@.len(),
            trim_colons(v@) == trim_colons(v@.subrange(k as int, v@.len() as int)),
        decreases v@.len() - k,
    {
        assert(v@.subrange(k as int, v@.len() as int).drop_first() =~= v@.subrange(k + 1, v@.len() as int));
        k = k + 1;
    }
    let ghost rest = v@.subrange(k as int, v@.len() as int);
    assert(!(rest.len() > 0 && rest[0] == ':'));
    k
}

/// Where the fields of a name lie: the end of the first field, and the
/// bounds of the second and third fields when they exist.
struct FieldBounds {
    end0: usize,
    second: Option<(usize, usize)>,
    third: Option<(usize, usize)>,
}

fn field_bounds(cs: &Vec<char>) -> (r: FieldBounds)
    ensures
        r.end0 <= cs@.len(),
        field0(cs@) == cs@.subrange(0, r.end0 as int),
        has_field1(cs@) == r.second is Some,
        has_field2(cs@) == r.third is Some,
        r.second matches Some((lo, hi)) ==> lo <= hi <= cs@.len() && field1(cs@) == cs@.subrange(lo as int, hi as int),
        r.third matches Some((lo, hi)) ==> lo <= hi <= cs@.len() && field2(cs@) == cs@.subrange(lo as int, hi as int),
{
    let n = cs.len();
    let ghost s = cs@;
    proof {
        lemma_index_of(s, '\0');
    }
    match find_char(cs, '\0') {
        None => {
            assert(s.subrange(0, n as int) =~= s);
            FieldBounds { end0: n, second: None, third: None }
        },
        Some(i0) => {
            let rest1 = sub_chars(cs, i0 + 1, n);
            assert(after_field0(s) == rest1@);
            proof {
                lemma_index_of(rest1@, '\0');
            }
            match find_char(&rest1, '\0') {
                None => {
                    assert(field1(s) =~= s.subrange(i0 + 1, n as int));
                    FieldBounds { end0: i0, second: Some((i0 + 1, n)), third: None }
                },
                Some(j) => {
                    assert(field1(s) =~= s.subrange(i0 + 1, i0 + 1 + j));
                    let lo2 = i0 + 1 + j + 1;
                    let rest2 = sub_chars(cs, lo2, n);
                    assert(right_of(rest1@, '\0') =~= rest2@);
                    proof {
                        lemma_index_of(rest2@, '\0');
                    }
                    let hi2 = match find_char(&rest2, '\0') {
                        None => {
                            assert(field2(s) =~= s.subrange(lo2 as int, n as int));
                            n
                        },
                        Some(k) => {
                            assert(field2(s) =~= s.subrange(lo2 as int, lo2 + k));
                            lo2 + k
                        },
                    };
                    FieldBounds { end0: i0, second: Some((i0 + 1, i0 + 1 + j)), third: Some((lo2, hi2)) }
                },
            }
        },
    }
}

/// The first NUL-separated field of a name.
pub(crate) fn first_field(name: &String) -> (r: String)
    ensures
        r@ == field0(name@),
{
    let cs = to_chars(name);
    let fb = field_bounds(&cs);
    string_part(name, 0, fb.end0)
}

/// Adds the agent of record `raw` with specialization `spec` to the table
/// and returns its id.
pub fn agent_from_raw_spec(raw: &EvtcRawAgent, table: &mut AgentTable, spec: Spec) -> (r: AgentId)
    requires
        old(table)@.len() < NO_AGENT,
    ensures
        r == old(table)@.len(),
        final(table)@.len() == old(table)@.len() + 1,
        final(table)@.subrange(0, r as int) == old(table)@,
        live(final(table)@, r as int),
        made_from_raw(agent_at(final(table)@, r as int), *raw, spec),
{
    let name = raw.name_full_lossy();
    let cs = to_chars(&name);
    let ghost s = name@;
    let fb = field_bounds(&cs);
    let (id, base_type): (i32, AgentType) = match spec {
        Spec::Npc => (if raw.prof > 0xFFFF {
            0
        } else {
            raw.prof as i32
        }, AgentType::StableSpecies),
        Spec::Gadget => ((raw.prof % 0x1_0000) as i32, AgentType::VolatileSpecies),
        _ => (NON_IDENTIFIED, AgentType::Player),
    };
    let character = string_part(&name, 0, fb.end0);
    let mut agent_type = base_type;
    let mut account: Option<String> = None;
    let mut group: Option<i32> = None;
    if base_type == AgentType::Player {
        let demote = match fb.second {
            None => true,
            Some((lo1, hi1)) => {
                if lo1 == hi1 {
                    true
                } else {
                    match fb.third {
                        None => false,
                        Some((lo2, hi2)) => {
                            let f0 = sub_chars(&cs, 0, fb.end0);
                            lo2 == hi2 || find_char(&f0, '-').is_some()
                        },
                    }
                }
            },
        };
        if demote {
            agent_type = AgentType::NonSquadPlayer;
        } else {
            match fb.second {
                Some((lo1, hi1)) => {
                    let f1 = sub_chars(&cs, lo1, hi1);
                    let k = leading_colons(&f1);
                    assert(f1@.subrange(k as int, f1@.len() as int) =~= s.subrange(lo1 + k, hi1 as int));
                    account = Some(string_part(&name, lo1 + k, hi1));
                },
                None => {},
            }
            match fb.third {
                Some((lo2, hi2)) => {
                    let f2 = sub_chars(&cs, lo2, hi2);
                    group = parse_i32_exec(&f2);
                },
                None => {},
            }
        }
    }
    assert(0 <= id);
    let ch = marker('c', 'h', id as u32);
    let gd = marker('g', 'd', id as u32);
    let unamed = contains_chars(&cs, &ch) || contains_chars(&cs, &gd);
    let agent = AgentItem {
        address: raw.address,
        name,
        agent_type,
        spec,
        base_spec: spec.base_spec(),
        id,
        instid: 0,
        toughness: raw.toughness,
        healing: raw.healing,
        condition: raw.condition,
        concentration: raw.concentration,
        hitbox_width: (raw.hitbox_width_raw as u32) * 2,
        hitbox_height: (raw.hitbox_height_raw as u32) * 2,
        first_aware: i64::MAX,
        last_aware: i64::MAX,
        master: NO_AGENT,
        englobing: NO_AGENT,
        englobed: Vec::new(),
        regrouped: Vec::new(),
        is_fake: false,
        is_not_in_squad_friendly_player: false,
        is_unknown: false,
        character,
        account,
        group,
        unamed,
    };
    let ghost t0 = table@;
    let r = table.push_agent(agent);
    assert(table@.subrange(0, r as int) =~= t0);
    r
}

/// Adds the agent of record `raw` to the table, its specialization decoded
/// by `catalog`, and returns its id.
pub fn agent_from_raw_with<C: SpecCatalog>(raw: &EvtcRawAgent, table: &mut AgentTable, catalog: &C) -> (r: AgentId)
    requires
        old(table)@.len() < NO_AGENT,
    ensures
        r == old(table)@.len(),
        final(table)@.len() == old(table)@.len() + 1,
        final(table)@.subrange(0, r as int) == old(table)@,
        live(final(table)@, r as int),
        made_from_raw(agent_at(final(table)@, r as int), *raw, catalog.decoded(raw.prof, raw.is_elite)),
{
    let spec = catalog.spec_of(raw.prof, raw.is_elite);
    agent_from_raw_spec(raw, table, spec)
}

/// Adds the agent of record `raw` to the table, its specialization decoded
/// locally, and returns its id.
pub fn agent_from_raw(raw: &EvtcRawAgent, table: &mut AgentTable) -> (r: AgentId)
    requires
        old(table)@.len() < NO_AGENT,
    ensures
        r == old(table)@.len(),
        final(table)@.len() == old(table)@.len() + 1,
        final(table)@.subrange(0, r as int) == old(table)@,
        live(final(table)@, r as int),
        made_from_raw(agent_at(final(table)@, r as int), *raw, spec_of_prof_elite(raw.prof, raw.is_elite)),
{
    let spec = NoSpecCatalog.spec_of(raw.prof, raw.is_elite);
    agent_from_raw_spec(raw, table, spec)
}

} // verus!
