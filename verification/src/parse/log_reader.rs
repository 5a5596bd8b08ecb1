//! Reading a whole EVTC byte stream: the header, the agent and skill tables,
//! and the combat rows, which are filtered, counted and put on a time line
//! that starts at zero.

use vstd::prelude::*;
use std::collections::BTreeMap;
use crate::parse::arc_build::{arc_payload_spec, parse_arc_build_payload};
use crate::parse::enums::{Activation, BuffRemove, Iff, LogType, StateChange};
use crate::parse::error::EvtcError;
use crate::parse::models::{
    DiscardStats, EvtcCombatItem, EvtcRawAgent, EvtcRawLog, EvtcRawSkill, ParseStats,
    ParserSettings, default_settings, dst_is_agent_kind,
    extension_supported, extension_supported_spec, find_nul, has_time_kind, is_effect_kind,
    is_extension_kind, is_missile_kind, nul_index, parse_extension_header, slice_prefix,
    squad_log_type_of, src_is_agent_kind,
};
use crate::parse::reader::{
    Reader, end_error, i32_at, i64_at, le2, le4, le8, signed32, signed64, u16_at, u32_at, u64_at,
};
use crate::text::{lossy_utf8, utf8_lossy};

verus! {

broadcast use vstd::laws_cmp::group_laws_cmp;

// ===== header =====

/// The ASCII white space that the header version may be padded with.
pub open spec fn is_ascii_ws(b: u8) -> bool {
    b == 32 || (9 <= b <= 13)
}

pub open spec fn trim_ascii_front(s: Seq<u8>) -> Seq<u8>
    decreases s.len(),
{
    if s.len() > 0 && is_ascii_ws(s[0]) {
        trim_ascii_front(s.drop_first())
    } else {
        s
    }
}

pub open spec fn trim_ascii_back(s: Seq<u8>) -> Seq<u8>
    decreases s.len(),
{
    if s.len() > 0 && is_ascii_ws(s.last()) {
        trim_ascii_back(s.drop_last())
    } else {
        s
    }
}

pub open spec fn is_ascii_digit(b: u8) -> bool {
    48 <= b <= 57
}

pub open spec fn all_ascii_digits(s: Seq<u8>) -> bool {
    forall|i: int| 0 <= i < s.len() ==> is_ascii_digit(s[i])
}

/// Decimal value of a string of ASCII digits.
pub open spec fn ascii_digits_val(s: Seq<u8>) -> nat
    decreases s.len(),
{
    if s.len() == 0 {
        0
    } else {
        10 * ascii_digits_val(s.drop_last()) + (s.last() - 48) as nat
    }
}

/// The build number of a header version field: `EVTC`, then an integer,
/// optionally signed and padded with ASCII white space. `None` when the field
/// is not of that form or the integer is out of range.
pub open spec fn header_build_of(v: Seq<u8>) -> Option<i32> {
    if v.len() < 4 || v[0] != 69 || v[1] != 86 || v[2] != 84 || v[3] != 67 {
        None
    } else {
        let t = trim_ascii_back(trim_ascii_front(v.subrange(4, v.len() as int)));
        let neg = t.len() > 0 && t[0] == 45;
        let rest = if t.len() > 0 && (t[0] == 43 || t[0] == 45) {
            t.drop_first()
        } else {
            t
        };
        if rest.len() == 0 || !all_ascii_digits(rest) || ascii_digits_val(rest) > 0x8000_0000 {
            None
        } else if neg {
            Some((0 - ascii_digits_val(rest)) as i32)
        } else {
            Some(ascii_digits_val(rest) as i32)
        }
    }
}

proof fn lemma_ascii_val_grows(s: Seq<u8>, k: int)
    requires
        0 <= k <= s.len(),
        all_ascii_digits(s),
    ensures
        ascii_digits_val(s.subrange(0, k)) <= ascii_digits_val(s),
    decreases s.len() - k,
{
    if k < s.len() {
        lemma_ascii_val_grows(s, k + 1);
        assert(s.subrange(0, k + 1).drop_last() =~= s.subrange(0, k));
    } else {
        assert(s.subrange(0, k) =~= s);
    }
}

fn ascii_ws(b: u8) -> (r: bool)
    ensures
        r == is_ascii_ws(b),
{
    b == 32 || (9 <= b && b <= 13)
}

/// Build number of the 12-byte header version field.
fn parse_header_build(version12: &[u8]) -> (r: Result<i32, EvtcError>)
    ensures
        match header_build_of(version12@) {
            Some(b) => r == Ok::<i32, EvtcError>(b),
            None => r == Err::<i32, EvtcError>(EvtcError::NotEvtc),
        },
{
    let n = version12.len();
    if n < 4 || version12[0] != 69 || version12[1] != 86 || version12[2] != 84 || version12[3]
        != 67 {
        return Err(EvtcError::NotEvtc);
    }
    let ghost v = version12@;
    let mut start: usize = 4;
    while start < n && ascii_ws(version12[start])
        invariant
            v == version12@,
            n == v.len(),
            4 <= start <= n,
            trim_ascii_front(v.subrange(4, n as int)) == trim_ascii_front(
                v.subrange(start as int, n as int),
            ),
        decreases n - start,
    {
        assert(v.subrange(start as int, n as int).drop_first() =~= v.subrange(
            start + 1,
            n as int,
        ));
        start = start + 1;
    }
    let mut end: usize = n;
    assert(trim_ascii_front(v.subrange(start as int, n as int)) == v.subrange(
        start as int,
        n as int,
    ));
    while end > start && ascii_ws(version12[end - 1])
        invariant
            v == version12@,
            n == v.len(),
            4 <= start <= end <= n,
            trim_ascii_back(v.subrange(start as int, n as int)) == trim_ascii_back(
                v.subrange(start as int, end as int),
            ),
        decreases end,
    {
        assert(v.subrange(start as int, end as int).drop_last() =~= v.subrange(
            start as int,
            end - 1,
        ));
        end = end - 1;
    }
    let ghost t = v.subrange(start as int, end as int);
    assert(trim_ascii_back(t) == t);
    assert(trim_ascii_back(trim_ascii_front(v.subrange(4, n as int))) == t);
    let mut negative = false;
    let mut i: usize = start;
    if i < end && version12[i] == 43 {
        i = i + 1;
    } else if i < end && version12[i] == 45 {
        negative = true;
        i = i + 1;
    }
    let ghost rest = v.subrange(i as int, end as int);
    assert(rest =~= (if t.len() > 0 && (t[0] == 43 || t[0] == 45) {
        t.drop_first()
    } else {
        t
    }));
    assert(negative == (t.len() > 0 && t[0] == 45));
    assert(header_build_of(v) == (if rest.len() == 0 || !all_ascii_digits(rest)
        || ascii_digits_val(rest) > 0x8000_0000 {
        None
    } else if negative {
        Some((0 - ascii_digits_val(rest)) as i32)
    } else {
        Some(ascii_digits_val(rest) as i32)
    }));
    let mut value: i64 = 0;
    let mut j: usize = i;
    while j < end
        invariant
            v == version12@,
            n == v.len(),
            i <= j <= end <= n,
            rest == v.subrange(i as int, end as int),
            header_build_of(v) == (if rest.len() == 0 || !all_ascii_digits(rest)
                || ascii_digits_val(rest) > 0x8000_0000 {
                None
            } else if negative {
                Some((0 - ascii_digits_val(rest)) as i32)
            } else {
                Some(ascii_digits_val(rest) as i32)
            }),
            forall|k: int| 0 <= k < j - i ==> is_ascii_digit(rest[k]),
            value == ascii_digits_val(rest.subrange(0, j - i)),
            value <= 0x8000_0000,
        decreases end - j,
    {
        let b = version12[j];
        if !(48 <= b && b <= 57) {
            assert(!is_ascii_digit(rest[j - i]));
            return Err(EvtcError::NotEvtc);
        }
        assert(rest.subrange(0, j - i + 1).drop_last() =~= rest.subrange(0, j - i));
        value = value * 10 + (b - 48) as i64;
        j = j + 1;
        if value > 0x8000_0000 {
            proof {
                if all_ascii_digits(rest) {
                    lemma_ascii_val_grows(rest, j - i);
                }
            }
            return Err(EvtcError::NotEvtc);
        }
    }
    if i == end {
        return Err(EvtcError::NotEvtc);
    }
    assert(rest.subrange(0, j - i) =~= rest);
    let value = if negative {
        -value
    } else {
        value
    };
    Ok(value as i32)
}

// ===== agent and skill tables =====

/// `a` is the 96-byte agent record of `b` at `p`.
pub open spec fn agent_at(a: EvtcRawAgent, b: Seq<u8>, p: int) -> bool {
    &&& a.address == le8(b, p)
    &&& a.prof == le4(b, p + 8)
    &&& a.is_elite == le4(b, p + 12)
    &&& a.toughness == le2(b, p + 16)
    &&& a.concentration == le2(b, p + 18)
    &&& a.healing == le2(b, p + 20)
    &&& a.hitbox_width_raw == le2(b, p + 22)
    &&& a.condition == le2(b, p + 24)
    &&& a.hitbox_height_raw == le2(b, p + 26)
    &&& a.name@ == b.subrange(p + 28, p + 96)
}

/// Error of an agent record at `p` that runs past `len`: the first field
/// that does not fit.
pub open spec fn agent_error(len: int, p: int) -> EvtcError {
    if p + 8 > len {
        end_error(len, p, 8)
    } else if p + 12 > len {
        end_error(len, p + 8, 4)
    } else if p + 16 > len {
        end_error(len, p + 12, 4)
    } else if p + 18 > len {
        end_error(len, p + 16, 2)
    } else if p + 20 > len {
        end_error(len, p + 18, 2)
    } else if p + 22 > len {
        end_error(len, p + 20, 2)
    } else if p + 24 > len {
        end_error(len, p + 22, 2)
    } else if p + 26 > len {
        end_error(len, p + 24, 2)
    } else if p + 28 > len {
        end_error(len, p + 26, 2)
    } else {
        end_error(len, p + 28, 68)
    }
}

/// Name bytes of the skill record at `p`: the 64 name bytes up to the first NUL.
pub open spec fn skill_name_bytes(b: Seq<u8>, p: int) -> Seq<u8> {
    let nb = b.subrange(p + 4, p + 68);
    nb.subrange(0, nul_index(nb) as int)
}

/// `s` is the 68-byte skill record of `b` at `p`.
pub open spec fn skill_at(s: EvtcRawSkill, b: Seq<u8>, p: int) -> bool {
    &&& s.id == le4(b, p)
    &&& s.name@ == lossy_utf8(skill_name_bytes(b, p))
}

/// Error of a skill record at `p` that runs past `len`.
pub open spec fn skill_error(len: int, p: int) -> EvtcError {
    if p + 4 > len {
        end_error(len, p, 4)
    } else {
        end_error(len, p + 4, 64)
    }
}

fn read_agent(reader: &mut Reader<'_>) -> (r: Result<EvtcRawAgent, EvtcError>)
    requires
        old(reader).wf(),
    ensures
        final(reader).wf(),
        final(reader).bytes == old(reader).bytes,
        r is Ok <==> old(reader).pos() + 96 <= old(reader).len(),
        r is Ok ==> final(reader).pos() == old(reader).pos() + 96 && agent_at(
            r->Ok_0,
            old(reader).bytes@,
            old(reader).pos(),
        ),
        r is Err ==> r->Err_0 == agent_error(old(reader).len(), old(reader).pos()),
{
    let address = reader.read_u64()?;
    let prof = reader.read_u32()?;
    let is_elite = reader.read_u32()?;
    let toughness = reader.read_u16()?;
    let concentration = reader.read_u16()?;
    let healing = reader.read_u16()?;
    let hitbox_width_raw = reader.read_u16()?;
    let condition = reader.read_u16()?;
    let hitbox_height_raw = reader.read_u16()?;
    let name_bytes = reader.take_bytes(68)?;
    let mut name = [0u8; 68];
    let mut i: usize = 0;
    while i < 68
        invariant
            name_bytes@.len() == 68,
            i <= 68,
            forall|k: int| 0 <= k < i ==> name@[k] == name_bytes@[k],
        decreases 68 - i,
    {
        name[i] = name_bytes[i];
        i = i + 1;
    }
    assert(name@ =~= name_bytes@);
    Ok(
        EvtcRawAgent {
            address,
            prof,
            is_elite,
            toughness,
            concentration,
            healing,
            hitbox_width_raw,
            condition,
            hitbox_height_raw,
            name,
        },
    )
}

fn read_skill(reader: &mut Reader<'_>) -> (r: Result<EvtcRawSkill, EvtcError>)
    requires
        old(reader).wf(),
    ensures
        final(reader).wf(),
        final(reader).bytes == old(reader).bytes,
        r is Ok <==> old(reader).pos() + 68 <= old(reader).len(),
        r is Ok ==> final(reader).pos() == old(reader).pos() + 68 && skill_at(
            r->Ok_0,
            old(reader).bytes@,
            old(reader).pos(),
        ),
        r is Err ==> r->Err_0 == skill_error(old(reader).len(), old(reader).pos()),
{
    let id = reader.read_u32()?;
    let name_bytes = reader.take_bytes(64)?;
    let nul = find_nul(name_bytes);
    proof {
        lemma_nul_bound(name_bytes@);
    }
    let name = utf8_lossy(slice_prefix(name_bytes, nul));
    Ok(EvtcRawSkill { id, name })
}

proof fn lemma_nul_bound(s: Seq<u8>)
    ensures
        nul_index(s) <= s.len(),
{
    crate::parse::models::lemma_nul_index(s);
}

/// Reads `count` agent records.
fn read_agents(reader: &mut Reader<'_>, count: u32) -> (r: Result<Vec<EvtcRawAgent>, EvtcError>)
    requires
        old(reader).wf(),
    ensures
        final(reader).wf(),
        final(reader).bytes == old(reader).bytes,
        r is Ok <==> old(reader).pos() + 96 * count <= old(reader).len(),
        r is Ok ==> {
            &&& final(reader).pos() == old(reader).pos() + 96 * count
            &&& r->Ok_0@.len() == count
            &&& forall|k: int|
                0 <= k < count ==> agent_at(
                    #[trigger] r->Ok_0@[k],
                    old(reader).bytes@,
                    old(reader).pos() + 96 * k,
                )
        },
        r is Err ==> r->Err_0 == agent_error(
            old(reader).len(),
            old(reader).pos() + 96 * ((old(reader).len() - old(reader).pos()) / 96),
        ),
{
    let ghost p0 = reader.pos();
    let ghost len = reader.len();
    let mut agents: Vec<EvtcRawAgent> = Vec::new();
    let mut i: u32 = 0;
    while i < count
        invariant
            reader.wf(),
            reader.bytes == old(reader).bytes,
            p0 == old(reader).pos(),
            len == reader.len(),
            i <= count,
            reader.pos() == p0 + 96 * i,
            agents@.len() == i,
            forall|k: int| 0 <= k < i ==> agent_at(#[trigger] agents@[k], reader.bytes@, p0 + 96 * k),
        decreases count - i,
    {
        match read_agent(reader) {
            Ok(a) => {
                agents.push(a);
            },
            Err(e) => {
                assert((len - p0) / 96 == i) by (nonlinear_arith)
                    requires
                        96 * i <= len - p0 < 96 * i + 96,
                ;
                assert(p0 + 96 * count > len) by (nonlinear_arith)
                    requires
                        p0 + 96 * i + 96 > len,
                        i < count,
                ;
                return Err(e);
            },
        }
        i = i + 1;
    }
    Ok(agents)
}

/// Reads `count` skill records.
fn read_skills(reader: &mut Reader<'_>, count: u32) -> (r: Result<Vec<EvtcRawSkill>, EvtcError>)
    requires
        old(reader).wf(),
    ensures
        final(reader).wf(),
        final(reader).bytes == old(reader).bytes,
        r is Ok <==> old(reader).pos() + 68 * count <= old(reader).len(),
        r is Ok ==> {
            &&& final(reader).pos() == old(reader).pos() + 68 * count
            &&& r->Ok_0@.len() == count
            &&& forall|k: int|
                0 <= k < count ==> skill_at(
                    #[trigger] r->Ok_0@[k],
                    old(reader).bytes@,
                    old(reader).pos() + 68 * k,
                )
        },
        r is Err ==> r->Err_0 == skill_error(
            old(reader).len(),
            old(reader).pos() + 68 * ((old(reader).len() - old(reader).pos()) / 68),
        ),
{
    let ghost p0 = reader.pos();
    let ghost len = reader.len();
    let mut skills: Vec<EvtcRawSkill> = Vec::new();
    let mut i: u32 = 0;
    while i < count
        invariant
            reader.wf(),
            reader.bytes == old(reader).bytes,
            p0 == old(reader).pos(),
            len == reader.len(),
            i <= count,
            reader.pos() == p0 + 68 * i,
            skills@.len() == i,
            forall|k: int| 0 <= k < i ==> skill_at(#[trigger] skills@[k], reader.bytes@, p0 + 68 * k),
        decreases count - i,
    {
        match read_skill(reader) {
            Ok(s) => {
                skills.push(s);
            },
            Err(e) => {
                assert((len - p0) / 68 == i) by (nonlinear_arith)
                    requires
                        68 * i <= len - p0 < 68 * i + 68,
                ;
                assert(p0 + 68 * count > len) by (nonlinear_arith)
                    requires
                        p0 + 68 * i + 68 > len,
                        i < count,
                ;
                return Err(e);
            },
        }
        i = i + 1;
    }
    Ok(skills)
}

// ===== combat rows =====

/// A revision 1 combat row (64 bytes at the start of `s`).
pub open spec fn row_rev1(s: Seq<u8>) -> EvtcCombatItem {
    EvtcCombatItem {
        time: signed64(le8(s, 0)) as i64,
        src_agent: le8(s, 8) as u64,
        dst_agent: le8(s, 16) as u64,
        value: signed32(le4(s, 24)) as i32,
        buff_dmg: signed32(le4(s, 28)) as i32,
        overstack_value: le4(s, 32) as u32,
        skill_id: le4(s, 36) as u32,
        src_instid: le2(s, 40) as u16,
        dst_instid: le2(s, 42) as u16,
        src_master_instid: le2(s, 44) as u16,
        dst_master_instid: le2(s, 46) as u16,
        iff: Iff::decode(s[48]),
        iff_raw: s[48],
        buff: s[49],
        result: s[50],
        activation: Activation::decode(s[51]),
        activation_raw: s[51],
        buff_remove: BuffRemove::decode(s[52]),
        buff_remove_raw: s[52],
        is_ninety: s[53],
        is_fifty: s[54],
        is_moving: s[55],
        state_change: StateChange::decode(s[56]),
        state_change_raw: s[56],
        is_flanking: s[57],
        is_shields: s[58],
        is_offcycle: s[59],
        pad: le4(s, 60) as u32,
    }
}

/// A revision 0 combat row: 16-bit skill and overstack fields, no
/// destination master (bytes 42 to 50 are unused), flags from byte 51 on,
/// byte 63 unused and no pad.
pub open spec fn row_rev0(s: Seq<u8>) -> EvtcCombatItem {
    EvtcCombatItem {
        time: signed64(le8(s, 0)) as i64,
        src_agent: le8(s, 8) as u64,
        dst_agent: le8(s, 16) as u64,
        value: signed32(le4(s, 24)) as i32,
        buff_dmg: signed32(le4(s, 28)) as i32,
        overstack_value: le2(s, 32) as u32,
        skill_id: le2(s, 34) as u32,
        src_instid: le2(s, 36) as u16,
        dst_instid: le2(s, 38) as u16,
        src_master_instid: le2(s, 40) as u16,
        dst_master_instid: 0,
        iff: Iff::decode(s[51]),
        iff_raw: s[51],
        buff: s[52],
        result: s[53],
        activation: Activation::decode(s[54]),
        activation_raw: s[54],
        buff_remove: BuffRemove::decode(s[55]),
        buff_remove_raw: s[55],
        is_ninety: s[56],
        is_fifty: s[57],
        is_moving: s[58],
        state_change: StateChange::decode(s[59]),
        state_change_raw: s[59],
        is_flanking: s[60],
        is_shields: s[61],
        is_offcycle: s[62],
        pad: 0,
    }
}

/// The row of the given archive revision; any non-zero revision reads as 1.
pub open spec fn row_of(revision: u8, s: Seq<u8>) -> EvtcCombatItem {
    if revision > 0 {
        row_rev1(s)
    } else {
        row_rev0(s)
    }
}

fn decode_rev1(s: &[u8]) -> (r: EvtcCombatItem)
    requires
        s@.len() == 64,
    ensures
        r == row_rev1(s@),
{
    EvtcCombatItem {
        time: i64_at(s, 0),
        src_agent: u64_at(s, 8),
        dst_agent: u64_at(s, 16),
        value: i32_at(s, 24),
        buff_dmg: i32_at(s, 28),
        overstack_value: u32_at(s, 32),
        skill_id: u32_at(s, 36),
        src_instid: u16_at(s, 40),
        dst_instid: u16_at(s, 42),
        src_master_instid: u16_at(s, 44),
        dst_master_instid: u16_at(s, 46),
        iff: Iff::from_byte(s[48]),
        iff_raw: s[48],
        buff: s[49],
        result: s[50],
        activation: Activation::from_byte(s[51]),
        activation_raw: s[51],
        buff_remove: BuffRemove::from_byte(s[52]),
        buff_remove_raw: s[52],
        is_ninety: s[53],
        is_fifty: s[54],
        is_moving: s[55],
        state_change: StateChange::from_byte(s[56]),
        state_change_raw: s[56],
        is_flanking: s[57],
        is_shields: s[58],
        is_offcycle: s[59],
        pad: u32_at(s, 60),
    }
}

fn decode_rev0(s: &[u8]) -> (r: EvtcCombatItem)
    requires
        s@.len() == 64,
    ensures
        r == row_rev0(s@),
{
    EvtcCombatItem {
        time: i64_at(s, 0),
        src_agent: u64_at(s, 8),
        dst_agent: u64_at(s, 16),
        value: i32_at(s, 24),
        buff_dmg: i32_at(s, 28),
        overstack_value: u16_at(s, 32) as u32,
        skill_id: u16_at(s, 34) as u32,
        src_instid: u16_at(s, 36),
        dst_instid: u16_at(s, 38),
        src_master_instid: u16_at(s, 40),
        dst_master_instid: 0,
        iff: Iff::from_byte(s[51]),
        iff_raw: s[51],
        buff: s[52],
        result: s[53],
        activation: Activation::from_byte(s[54]),
        activation_raw: s[54],
        buff_remove: BuffRemove::from_byte(s[55]),
        buff_remove_raw: s[55],
        is_ninety: s[56],
        is_fifty: s[57],
        is_moving: s[58],
        state_change: StateChange::from_byte(s[59]),
        state_change_raw: s[59],
        is_flanking: s[60],
        is_shields: s[61],
        is_offcycle: s[62],
        pad: 0,
    }
}

/// Reads the next 64-byte row of a revision 1 stream.
pub fn read_combat_item_rev1(reader: &mut Reader<'_>) -> (r: EvtcCombatItem)
    requires
        old(reader).wf(),
        old(reader).pos() + 64 <= old(reader).len(),
    ensures
        final(reader).wf(),
        final(reader).bytes == old(reader).bytes,
        final(reader).pos() == old(reader).pos() + 64,
        r == row_rev1(old(reader).bytes@.subrange(old(reader).pos(), old(reader).pos() + 64)),
{
    match reader.take_bytes(64) {
        Ok(row) => decode_rev1(row),
        Err(_) => {
            assert(false);
            decode_rev1(reader.bytes)
        },
    }
}

/// Reads the next 64-byte row of a revision 0 stream.
pub fn read_combat_item_rev0(reader: &mut Reader<'_>) -> (r: EvtcCombatItem)
    requires
        old(reader).wf(),
        old(reader).pos() + 64 <= old(reader).len(),
    ensures
        final(reader).wf(),
        final(reader).bytes == old(reader).bytes,
        final(reader).pos() == old(reader).pos() + 64,
        r == row_rev0(old(reader).bytes@.subrange(old(reader).pos(), old(reader).pos() + 64)),
{
    match reader.take_bytes(64) {
        Ok(row) => decode_rev0(row),
        Err(_) => {
            assert(false);
            decode_rev0(reader.bytes)
        },
    }
}

// ===== row filter =====

/// Why a combat row is dropped, or `Valid` when it is kept.
pub enum RowVerdict {
    Valid,
    UnsupportedStateChange,
    MapMismatch,
    InstanceBuffInitial,
    InvalidHealthUpdate,
    ExtensionsDisabled,
    ExtensionMetadata,
    UnknownExtensionPad,
    EmptyEvent,
}

/// State changes the parser does not keep.
pub open spec fn unsupported_kind(s: StateChange) -> bool {
    ||| s == StateChange::Unknown
    ||| s == StateChange::ReplInfo
    ||| s == StateChange::StatReset
    ||| s == StateChange::APIDelayed
    ||| s == StateChange::Idle
    ||| s == StateChange::AgentChange
    ||| s == StateChange::EarlyExit
    ||| s == StateChange::Jump
}

/// The filter's verdict on `item`, given the current map, the registered
/// extensions, the trigger id and the first map id. The checks apply in order.
pub open spec fn row_verdict(
    item: EvtcCombatItem,
    settings: ParserSettings,
    current_map_id: i32,
    enabled: Seq<u32>,
    id: u16,
    map_id: i32,
) -> RowVerdict {
    let sc = item.state_change;
    if unsupported_kind(sc) {
        RowVerdict::UnsupportedStateChange
    } else if map_id != -1 && map_id != current_map_id && (src_is_agent_kind(sc)
        || dst_is_agent_kind(sc)) {
        RowVerdict::MapMismatch
    } else if id == 2 && sc == StateChange::BuffInitial {
        RowVerdict::InstanceBuffInitial
    } else if sc == StateChange::HealthUpdate && item.dst_agent > 20_000 {
        RowVerdict::InvalidHealthUpdate
    } else if is_extension_kind(sc) && !settings.parse_extensions {
        RowVerdict::ExtensionsDisabled
    } else if is_extension_kind(sc) && item.pad == 0 && sc == StateChange::Extension {
        RowVerdict::ExtensionMetadata
    } else if is_extension_kind(sc) && !enabled.contains(item.pad) {
        RowVerdict::UnknownExtensionPad
    } else if item.src_instid == 0 && item.dst_agent == 0 && item.src_agent == 0
        && item.dst_instid == 0 && item.iff == Iff::Unknown && !is_effect_kind(sc)
        && !is_missile_kind(sc) {
        RowVerdict::EmptyEvent
    } else {
        RowVerdict::Valid
    }
}

/// Signature of an extension registration row.
pub open spec fn ext_signature(item: EvtcCombatItem) -> u32 {
    (item.src_agent % 0x1_0000_0000) as u32
}

/// Revision of an extension registration row.
pub open spec fn ext_revision(item: EvtcCombatItem) -> u32 {
    ((item.src_agent / 0x1_0000_0000) % 0x100_0000) as u32
}

/// The registered extensions after `item` is filtered: a registration row of
/// a supported extension appends its signature.
pub open spec fn registered(enabled: Seq<u32>, item: EvtcCombatItem, v: RowVerdict) -> Seq<u32> {
    if v is ExtensionMetadata && extension_supported_spec(ext_signature(item), ext_revision(item)) {
        enabled.push(ext_signature(item))
    } else {
        enabled
    }
}

/// The drop counters after a row with verdict `v`.
pub open spec fn count_drop(d: DiscardStats, v: RowVerdict) -> DiscardStats {
    match v {
        RowVerdict::Valid => d,
        RowVerdict::UnsupportedStateChange => DiscardStats {
            unsupported_state_change: (d.unsupported_state_change + 1) as u64,
            ..d
        },
        RowVerdict::MapMismatch => DiscardStats { map_mismatch: (d.map_mismatch + 1) as u64, ..d },
        RowVerdict::InstanceBuffInitial => DiscardStats {
            instance_buff_initial: (d.instance_buff_initial + 1) as u64,
            ..d
        },
        RowVerdict::InvalidHealthUpdate => DiscardStats {
            invalid_health_update: (d.invalid_health_update + 1) as u64,
            ..d
        },
        RowVerdict::ExtensionsDisabled => DiscardStats {
            extensions_disabled: (d.extensions_disabled + 1) as u64,
            ..d
        },
        RowVerdict::ExtensionMetadata => DiscardStats {
            extension_metadata: (d.extension_metadata + 1) as u64,
            ..d
        },
        RowVerdict::UnknownExtensionPad => DiscardStats {
            unknown_extension_pad: (d.unknown_extension_pad + 1) as u64,
            ..d
        },
        RowVerdict::EmptyEvent => DiscardStats { empty_event: (d.empty_event + 1) as u64, ..d },
    }
}

fn contains_u32(v: &Vec<u32>, x: u32) -> (r: bool)
    ensures
        r == v@.contains(x),
{
    let mut i: usize = 0;
    while i < v.len()
        invariant
            i <= v@.len(),
            forall|k: int| 0 <= k < i ==> v@[k] != x,
        decreases v@.len() - i,
    {
        if v[i] == x {
            assert(v@[i as int] == x);
            return true;
        }
        i = i + 1;
    }
    false
}

/// Applies the filter to `item`: registers a supported extension and counts
/// a dropped row under its reason. True when the row is kept.
fn is_valid(
    item: &EvtcCombatItem,
    settings: &ParserSettings,
    current_map_id: i32,
    enabled_extensions: &mut Vec<u32>,
    id: u16,
    map_id: i32,
    discarded: &mut DiscardStats,
) -> (r: bool)
    requires
        old(discarded).total_of() < 0xFFFF_FFFF_FFFF_FFFF,
    ensures
        r == (row_verdict(*item, *settings, current_map_id, old(enabled_extensions)@, id, map_id) is Valid),
        final(enabled_extensions)@ == registered(
            old(enabled_extensions)@,
            *item,
            row_verdict(*item, *settings, current_map_id, old(enabled_extensions)@, id, map_id),
        ),
        *final(discarded) == count_drop(
            *old(discarded),
            row_verdict(*item, *settings, current_map_id, old(enabled_extensions)@, id, map_id),
        ),
{
    if matches!(
        item.state_change,
        StateChange::Unknown | StateChange::ReplInfo | StateChange::StatReset
            | StateChange::APIDelayed | StateChange::Idle | StateChange::AgentChange
            | StateChange::EarlyExit | StateChange::Jump
    ) {
        discarded.unsupported_state_change = discarded.unsupported_state_change + 1;
        return false;
    }
    if map_id != -1 && map_id != current_map_id && (item.src_is_agent() || item.dst_is_agent()) {
        discarded.map_mismatch = discarded.map_mismatch + 1;
        return false;
    }
    if id == 2 && item.state_change == StateChange::BuffInitial {
        discarded.instance_buff_initial = discarded.instance_buff_initial + 1;
        return false;
    }
    if item.state_change == StateChange::HealthUpdate && item.dst_agent > 20_000 {
        discarded.invalid_health_update = discarded.invalid_health_update + 1;
        return false;
    }
    if item.is_extension() {
        if !settings.parse_extensions {
            discarded.extensions_disabled = discarded.extensions_disabled + 1;
            return false;
        }
        if item.pad == 0 && item.state_change == StateChange::Extension {
            let (sig, rev) = parse_extension_header(item.src_agent);
            if extension_supported(sig, rev) {
                enabled_extensions.push(sig);
            }
            discarded.extension_metadata = discarded.extension_metadata + 1;
            return false;
        }
        if !contains_u32(enabled_extensions, item.pad) {
            discarded.unknown_extension_pad = discarded.unknown_extension_pad + 1;
            return false;
        }
    }
    if item.src_instid == 0 && item.dst_agent == 0 && item.src_agent == 0 && item.dst_instid == 0
        && item.iff == Iff::Unknown && !item.is_effect() && !item.is_missile() {
        discarded.empty_event = discarded.empty_event + 1;
        return false;
    }
    true
}

// ===== scanning the rows =====

/// What the scan over the combat rows has gathered so far.
pub struct ScanView {
    /// Integer part of the header version (the build row fallback).
    pub header_build: i32,
    pub effective_id: u16,
    /// 1: stop at the log end row; 0: trim after the squad combat end; -1: undecided.
    pub stop_at_log_end_event: i32,
    pub keep_only_extension_events: bool,
    pub current_map_id: i32,
    pub map_id: i32,
    /// A map id row has been met.
    pub map_seen: bool,
    pub log_start_offset: i64,
    pub log_end_time: i64,
    pub gw2_build: u64,
    pub arc_version: (i32, i32),
    pub redirection: Map<u64, u64>,
    pub enabled: Seq<u32>,
    pub arc_consumed: int,
    pub discarded: DiscardStats,
    pub events: Seq<EvtcCombatItem>,
}

/// State before the first row.
pub open spec fn scan_init(id: u16, header_build: i32) -> ScanView {
    ScanView {
        header_build,
        effective_id: id,
        stop_at_log_end_event: if id == 2 { 1i32 } else { -1i32 },
        keep_only_extension_events: false,
        current_map_id: -1i32,
        map_id: -1i32,
        map_seen: false,
        log_start_offset: i64::MIN,
        log_end_time: 0,
        gw2_build: 0,
        arc_version: (header_build, -1i32),
        redirection: Map::empty(),
        enabled: Seq::empty(),
        arc_consumed: 0,
        discarded: DiscardStats {
            unsupported_state_change: 0,
            map_mismatch: 0,
            instance_buff_initial: 0,
            invalid_health_update: 0,
            extensions_disabled: 0,
            extension_metadata: 0,
            unknown_extension_pad: 0,
            empty_event: 0,
            after_log_end: 0,
        },
        events: Seq::empty(),
    }
}

/// One row of the scan.
pub open spec fn scan_step(s: ScanView, item: EvtcCombatItem, settings: ParserSettings) -> ScanView {
    let sc = item.state_change;
    let start_adjust = s.stop_at_log_end_event == -1 && sc == StateChange::SquadCombatStart;
    let map_log = squad_log_type_of(item.dst_agent) == LogType::MapLog;
    let effective_id: u16 = if start_adjust && map_log {
        2
    } else {
        s.effective_id
    };
    let stop: i32 = if start_adjust {
        if map_log {
            1
        } else {
            0
        }
    } else {
        s.stop_at_log_end_event
    };
    let map_id = if sc == StateChange::MapID && !s.map_seen {
        item.src_agent as i32
    } else {
        s.map_id
    };
    let map_seen = s.map_seen || sc == StateChange::MapID;
    let current_map_id = if sc == StateChange::MapID || sc == StateChange::MapChange {
        item.src_agent as i32
    } else {
        s.current_map_id
    };
    let redirection = if sc == StateChange::AgentChange {
        s.redirection.insert(item.src_agent, item.dst_agent)
    } else {
        s.redirection
    };
    let verdict = row_verdict(item, settings, current_map_id, s.enabled, effective_id, map_id);
    let base = ScanView {
        effective_id,
        stop_at_log_end_event: stop,
        current_map_id,
        map_id,
        map_seen,
        redirection,
        enabled: registered(s.enabled, item, verdict),
        discarded: count_drop(s.discarded, verdict),
        ..s
    };
    if !(verdict is Valid) {
        base
    } else if s.keep_only_extension_events && !is_extension_kind(sc) {
        ScanView {
            discarded: DiscardStats {
                after_log_end: (base.discarded.after_log_end + 1) as u64,
                ..base.discarded
            },
            ..base
        }
    } else if sc == StateChange::ArcBuild {
        ScanView {
            arc_consumed: base.arc_consumed + 1,
            arc_version: match arc_payload_spec(item) {
                Some(v) => v,
                None => (s.header_build, 0),
            },
            ..base
        }
    } else {
        let timed = has_time_kind(sc);
        let offset = if timed && s.log_start_offset == i64::MIN {
            item.time
        } else {
            s.log_start_offset
        };
        let time = if timed {
            item.time.wrapping_sub(offset)
        } else {
            item.time
        };
        ScanView {
            log_start_offset: offset,
            log_end_time: if timed {
                time
            } else {
                s.log_end_time
            },
            events: s.events.push(EvtcCombatItem { time, ..item }),
            gw2_build: if sc == StateChange::GWBuild && item.src_agent != 0 {
                item.src_agent
            } else {
                s.gw2_build
            },
            keep_only_extension_events: s.keep_only_extension_events || (sc
                == StateChange::SquadCombatEnd && stop <= 0),
            ..base
        }
    }
}

/// The scan after the rows of `rows`, in order.
pub open spec fn scan_rows(rows: Seq<EvtcCombatItem>, init: ScanView, settings: ParserSettings) -> ScanView
    decreases rows.len(),
{
    if rows.len() == 0 {
        init
    } else {
        scan_step(scan_rows(rows.drop_last(), init, settings), rows.last(), settings)
    }
}

/// Rows counted so far: kept, dropped, or consumed as build rows.
pub open spec fn scan_total(s: ScanView) -> int {
    s.discarded.total_of() + s.events.len() + s.arc_consumed
}

proof fn lemma_count_drop(d: DiscardStats, v: RowVerdict)
    requires
        d.total_of() < u64::MAX,
    ensures
        count_drop(d, v).total_of() == d.total_of() + if v is Valid {
            0int
        } else {
            1int
        },
{
}

/// Each row is counted exactly once.
proof fn lemma_scan_step_counts(s: ScanView, item: EvtcCombatItem, settings: ParserSettings)
    requires
        scan_total(s) < u64::MAX,
        s.arc_consumed >= 0,
    ensures
        scan_total(scan_step(s, item, settings)) == scan_total(s) + 1,
        scan_step(s, item, settings).arc_consumed >= 0,
{
    let sc = item.state_change;
    let start_adjust = s.stop_at_log_end_event == -1 && sc == StateChange::SquadCombatStart;
    let map_log = squad_log_type_of(item.dst_agent) == LogType::MapLog;
    let effective_id: u16 = if start_adjust && map_log {
        2
    } else {
        s.effective_id
    };
    let map_id = if sc == StateChange::MapID && !s.map_seen {
        item.src_agent as i32
    } else {
        s.map_id
    };
        let current_map_id = if sc == StateChange::MapID || sc == StateChange::MapChange {
        item.src_agent as i32
    } else {
        s.current_map_id
    };
    let verdict = row_verdict(item, settings, current_map_id, s.enabled, effective_id, map_id);
    lemma_count_drop(s.discarded, verdict);
}

/// Conservation over a whole scan: every row is either kept, dropped under
/// exactly one reason, or consumed as a build row.
pub proof fn lemma_scan_rows_counts(rows: Seq<EvtcCombatItem>, id: u16, header_build: i32, settings: ParserSettings)
    requires
        rows.len() < u64::MAX,
    ensures
        scan_total(scan_rows(rows, scan_init(id, header_build), settings)) == rows.len(),
        scan_rows(rows, scan_init(id, header_build), settings).arc_consumed >= 0,
    decreases rows.len(),
{
    if rows.len() > 0 {
        lemma_scan_rows_counts(rows.drop_last(), id, header_build, settings);
        lemma_scan_step_counts(
            scan_rows(rows.drop_last(), scan_init(id, header_build), settings),
            rows.last(),
            settings,
        );
    }
}

/// An extension row of a registered extension, moved onto the time line.
pub open spec fn ext_time_fixed(e: EvtcCombatItem, enabled: Seq<u32>, offset: i64) -> EvtcCombatItem {
    if is_extension_kind(e.state_change) && e.pad != 0 && enabled.contains(e.pad) {
        EvtcCombatItem { time: e.time.wrapping_sub(offset), ..e }
    } else {
        e
    }
}

/// The kept rows once extension rows are on the time line.
pub open spec fn final_events(s: ScanView) -> Seq<EvtcCombatItem> {
    s.events.map_values(|e: EvtcCombatItem| ext_time_fixed(e, s.enabled, s.log_start_offset))
}

/// The error of a finished scan, if any.
pub open spec fn finish_error(s: ScanView, settings: ParserSettings) -> Option<EvtcError> {
    if s.events.len() == 0 {
        Some(EvtcError::NoCombatEvents)
    } else if s.log_end_time < settings.too_short_limit_ms {
        Some(EvtcError::TooShort { duration: s.log_end_time, limit: settings.too_short_limit_ms })
    } else if s.log_end_time > 86_400_000 {
        Some(EvtcError::TooLong)
    } else {
        None
    }
}

struct ScanState {
    header_build: i32,
    effective_id: u16,
    stop_at_log_end_event: i32,
    keep_only_extension_events: bool,
    current_map_id: i32,
    map_id: i32,
    map_seen: bool,
    log_start_offset: i64,
    log_end_time: i64,
    gw2_build: u64,
    arc_version: (i32, i32),
    redirection: BTreeMap<u64, u64>,
    enabled_extensions: Vec<u32>,
    arc_build_consumed: u64,
    discarded: DiscardStats,
    combat_events: Vec<EvtcCombatItem>,
}

impl ScanState {
    spec fn view(&self) -> ScanView {
        ScanView {
            header_build: self.header_build,
            effective_id: self.effective_id,
            stop_at_log_end_event: self.stop_at_log_end_event,
            keep_only_extension_events: self.keep_only_extension_events,
            current_map_id: self.current_map_id,
            map_id: self.map_id,
            map_seen: self.map_seen,
            log_start_offset: self.log_start_offset,
            log_end_time: self.log_end_time,
            gw2_build: self.gw2_build,
            arc_version: self.arc_version,
            redirection: self.redirection@,
            enabled: self.enabled_extensions@,
            arc_consumed: self.arc_build_consumed as int,
            discarded: self.discarded,
            events: self.combat_events@,
        }
    }

    fn new(id: u16, header_build: i32) -> (r: Self)
        ensures
            r@ == scan_init(id, header_build),
    {
        ScanState {
            header_build,
            effective_id: id,
            stop_at_log_end_event: if id == 2 {
                1
            } else {
                -1
            },
            keep_only_extension_events: false,
            current_map_id: -1,
            map_id: -1,
            map_seen: false,
            log_start_offset: i64::MIN,
            log_end_time: 0,
            gw2_build: 0,
            arc_version: (header_build, -1),
            redirection: BTreeMap::new(),
            enabled_extensions: Vec::new(),
            arc_build_consumed: 0,
            discarded: DiscardStats {
                unsupported_state_change: 0,
                map_mismatch: 0,
                instance_buff_initial: 0,
                invalid_health_update: 0,
                extensions_disabled: 0,
                extension_metadata: 0,
                unknown_extension_pad: 0,
                empty_event: 0,
                after_log_end: 0,
            },
            combat_events: Vec::new(),
        }
    }

    fn step(&mut self, item: EvtcCombatItem, settings: &ParserSettings)
        requires
            scan_total(old(self)@) < u64::MAX,
        ensures
            final(self)@ == scan_step(old(self)@, item, *settings),
    {
        let mut item = item;
        if self.stop_at_log_end_event == -1 && item.state_change == StateChange::SquadCombatStart {
            if item.squad_combat_log_type() == LogType::MapLog {
                self.effective_id = 2;
                self.stop_at_log_end_event = 1;
            } else {
                self.stop_at_log_end_event = 0;
            }
        }
        if item.state_change == StateChange::MapID {
            if !self.map_seen {
                self.map_id = item.src_agent as i32;
                self.map_seen = true;
            }
            self.current_map_id = item.src_agent as i32;
        }
        if item.state_change == StateChange::MapChange {
            self.current_map_id = item.src_agent as i32;
        }
        if item.state_change == StateChange::AgentChange {
            self.redirection.insert(item.src_agent, item.dst_agent);
        }
        let valid = is_valid(
            &item,
            settings,
            self.current_map_id,
            &mut self.enabled_extensions,
            self.effective_id,
            self.map_id,
            &mut self.discarded,
        );
        let trimmed = self.keep_only_extension_events && !item.is_extension();
        if !valid || trimmed {
            if valid && trimmed {
                self.discarded.after_log_end = self.discarded.after_log_end + 1;
            }
            return;
        }
        if item.state_change == StateChange::ArcBuild {
            self.arc_build_consumed = self.arc_build_consumed + 1;
            match parse_arc_build_payload(&item) {
                Some(v) => {
                    self.arc_version = v;
                },
                None => {
                    self.arc_version = (self.header_build, 0);
                },
            }
            return;
        }
        if item.has_time() {
            if self.log_start_offset == i64::MIN {
                self.log_start_offset = item.time;
            }
            item.time = item.time.wrapping_sub(self.log_start_offset);
            self.log_end_time = item.time;
        }
        self.combat_events.push(item);
        if item.state_change == StateChange::GWBuild && item.src_agent != 0 {
            self.gw2_build = item.src_agent;
        }
        if item.state_change == StateChange::SquadCombatEnd && self.stop_at_log_end_event <= 0 {
            self.keep_only_extension_events = true;
        }
    }

    /// Puts the rows of registered extensions on the time line.
    fn fix_extension_times(&mut self)
        ensures
            final(self)@ == (ScanView { events: final_events(old(self)@), ..old(self)@ }),
    {
        let offset = self.log_start_offset;
        let ghost old_events = self.combat_events@;
        let mut i: usize = 0;
        while i < self.combat_events.len()
            invariant
                i <= self.combat_events@.len(),
                self.combat_events@.len() == old_events.len(),
                offset == old(self).log_start_offset,
                old_events == old(self).combat_events@,
                self@ == (ScanView { events: self.combat_events@, ..old(self)@ }),
                forall|k: int|
                    0 <= k < i ==> self.combat_events@[k] == ext_time_fixed(
                        old_events[k],
                        old(self).enabled_extensions@,
                        offset,
                    ),
                forall|k: int| i <= k < old_events.len() ==> self.combat_events@[k] == old_events[k],
            decreases old_events.len() - i,
        {
            let mut e = self.combat_events[i];
            if e.is_extension() && e.pad != 0 && contains_u32(&self.enabled_extensions, e.pad) {
                e.time = e.time.wrapping_sub(offset);
                self.combat_events[i] = e;
            }
            i = i + 1;
        }
        assert(self.combat_events@ =~= final_events(old(self)@));
    }
}

// ===== the whole stream =====

/// Build number from the header version field (0 when it does not parse).
pub open spec fn header_build_spec(b: Seq<u8>) -> i32 {
    match header_build_of(b.subrange(0, 12)) {
        Some(h) => h,
        None => 0,
    }
}

/// Number of agent records (the `u32` at byte 16).
pub open spec fn agent_count_of(b: Seq<u8>) -> int {
    le4(b, 16)
}

/// Position of the skill count, right after the agent table.
pub open spec fn skill_count_at(b: Seq<u8>) -> int {
    20 + 96 * agent_count_of(b)
}

pub open spec fn skill_count_of(b: Seq<u8>) -> int {
    le4(b, skill_count_at(b))
}

/// Position of the first combat row, right after the skill table.
pub open spec fn combat_start(b: Seq<u8>) -> int {
    skill_count_at(b) + 4 + 68 * skill_count_of(b)
}

/// Number of whole 64-byte rows after the skill table; a shorter tail is ignored.
pub open spec fn combat_count(b: Seq<u8>) -> int {
    (b.len() - combat_start(b)) / 64
}

/// The decoded combat rows of the stream.
pub open spec fn combat_rows(b: Seq<u8>) -> Seq<EvtcCombatItem> {
    Seq::new(
        combat_count(b) as nat,
        |k: int| row_of(b[12], b.subrange(combat_start(b) + 64 * k, combat_start(b) + 64 * k + 64)),
    )
}

/// The scan over all combat rows of the stream.
pub open spec fn scan_of(b: Seq<u8>, settings: ParserSettings) -> ScanView {
    scan_rows(combat_rows(b), scan_init(le2(b, 13) as u16, header_build_spec(b)), settings)
}

/// The error a parse of `b` ends with, if any, in the order the stream is read.
pub open spec fn parse_error(b: Seq<u8>, settings: ParserSettings) -> Option<EvtcError> {
    let len = b.len() as int;
    if len < 12 {
        Some(end_error(len, 0, 12))
    } else if header_build_of(b.subrange(0, 12)) is None {
        Some(EvtcError::NotEvtc)
    } else if len < 13 {
        Some(end_error(len, 12, 1))
    } else if len < 15 {
        Some(end_error(len, 13, 2))
    } else if len < 16 {
        Some(end_error(len, 15, 1))
    } else if len < 20 {
        Some(end_error(len, 16, 4))
    } else if len < skill_count_at(b) {
        Some(agent_error(len, 20 + 96 * ((len - 20) / 96)))
    } else if len < skill_count_at(b) + 4 {
        Some(end_error(len, skill_count_at(b), 4))
    } else if len < combat_start(b) {
        let k0 = skill_count_at(b) + 4;
        Some(skill_error(len, k0 + 68 * ((len - k0) / 68)))
    } else {
        finish_error(scan_of(b, settings), settings)
    }
}

/// `log` is what a successful parse of `b` gives.
pub open spec fn log_matches(log: EvtcRawLog, b: Seq<u8>, settings: ParserSettings) -> bool {
    let s = scan_of(b, settings);
    &&& log.header_build == header_build_spec(b)
    &&& log.revision == b[12]
    &&& log.id == s.effective_id
    &&& log.agents@.len() == agent_count_of(b)
    &&& forall|k: int|
        0 <= k < agent_count_of(b) ==> agent_at(#[trigger] log.agents@[k], b, 20 + 96 * k)
    &&& log.skills@.len() == skill_count_of(b)
    &&& forall|k: int|
        0 <= k < skill_count_of(b) ==> skill_at(
            #[trigger] log.skills@[k],
            b,
            skill_count_at(b) + 4 + 68 * k,
        )
    &&& log.combat_events@ == final_events(s)
    &&& log.agent_redirection@ == s.redirection
    &&& log.enabled_extensions@ == s.enabled
    &&& log.map_id == s.map_id
    &&& log.log_start_offset == s.log_start_offset
    &&& log.log_end_time == s.log_end_time
    &&& log.arc_version == s.arc_version
    &&& log.gw2_build == s.gw2_build
    &&& log.stats.raw_agent_count == agent_count_of(b)
    &&& log.stats.raw_skill_count == skill_count_of(b)
    &&& log.stats.raw_combat_count == combat_count(b)
    &&& log.stats.kept_combat_count == s.events.len()
    &&& log.stats.arc_build_consumed == s.arc_consumed
    &&& log.stats.discarded == s.discarded
}

/// Parses an EVTC byte stream with the default settings.
pub fn parse_evtc_log(bytes: &[u8]) -> (r: Result<EvtcRawLog, EvtcError>)
    ensures
        match parse_error(bytes@, default_settings()) {
            Some(e) => r == Err::<EvtcRawLog, EvtcError>(e),
            None => r is Ok && log_matches(r->Ok_0, bytes@, default_settings()),
        },
{
    let settings = ParserSettings::default();
    parse_evtc_log_with_settings(bytes, &settings)
}

/// Parses an EVTC byte stream: header, agent table, skill table, then the
/// combat rows, which are filtered, counted and put on a time line starting
/// at the first timed row.
pub fn parse_evtc_log_with_settings(bytes: &[u8], settings: &ParserSettings) -> (r: Result<
    EvtcRawLog,
    EvtcError,
>)
    ensures
        match parse_error(bytes@, *settings) {
            Some(e) => r == Err::<EvtcRawLog, EvtcError>(e),
            None => r is Ok && log_matches(r->Ok_0, bytes@, *settings),
        },
        r is Ok ==> r->Ok_0.stats.kept_combat_count + r->Ok_0.stats.discarded.total_of()
            + r->Ok_0.stats.arc_build_consumed == r->Ok_0.stats.raw_combat_count,
{
    let ghost b = bytes@;
    let mut reader = Reader::new(bytes);
    let version12 = reader.take_bytes(12)?;
    let header_build = parse_header_build(version12)?;
    let revision = reader.read_u8()?;
    let id = reader.read_u16()?;
    reader.skip(1)?;
    let agent_count = reader.read_u32()?;
    let agents = read_agents(&mut reader, agent_count)?;
    let skill_count = reader.read_u32()?;
    let skills = read_skills(&mut reader, skill_count)?;
    let raw_combat_count: usize = reader.remaining() / 64;
    let ghost c0 = reader.pos();
    let ghost rows = combat_rows(b);
    assert(c0 == combat_start(b));
    assert(header_build == header_build_spec(b));
    let mut scan = ScanState::new(id, header_build);
    assert(rows.take(0) =~= Seq::<EvtcCombatItem>::empty());
    let mut k: usize = 0;
    while k < raw_combat_count
        invariant
            reader.wf(),
            reader.bytes == bytes,
            b == bytes@,
            c0 == combat_start(b),
            raw_combat_count == combat_count(b),
            c0 + 64 * raw_combat_count <= b.len(),
            k <= raw_combat_count,
            reader.pos() == c0 + 64 * k,
            revision == b[12],
            rows == combat_rows(b),
            scan@ == scan_rows(rows.take(k as int), scan_init(id, header_build), *settings),
            scan_total(scan@) == k,
            scan@.arc_consumed >= 0,
        decreases raw_combat_count - k,
    {
        assert(c0 + 64 * k + 64 <= b.len()) by (nonlinear_arith)
            requires
                c0 + 64 * raw_combat_count <= b.len(),
                k < raw_combat_count,
        ;
        let item = if revision > 0 {
            read_combat_item_rev1(&mut reader)
        } else {
            read_combat_item_rev0(&mut reader)
        };
        assert(item == rows[k as int]);
        proof {
            lemma_scan_step_counts(scan@, item, *settings);
        }
        scan.step(item, settings);
        assert(rows.take(k + 1).drop_last() =~= rows.take(k as int));
        k = k + 1;
    }
    assert(rows.take(k as int) =~= rows);
    scan.fix_extension_times();
    if scan.combat_events.len() == 0 {
        return Err(EvtcError::NoCombatEvents);
    }
    if scan.log_end_time < settings.too_short_limit_ms {
        return Err(
            EvtcError::TooShort { duration: scan.log_end_time, limit: settings.too_short_limit_ms },
        );
    }
    if scan.log_end_time > 86_400_000 {
        return Err(EvtcError::TooLong);
    }
    let kept_combat_count = scan.combat_events.len();
    let stats = ParseStats {
        raw_agent_count: agent_count,
        raw_skill_count: skill_count,
        raw_combat_count: raw_combat_count as u64,
        kept_combat_count,
        arc_build_consumed: scan.arc_build_consumed,
        discarded: scan.discarded,
    };
    Ok(
        EvtcRawLog {
            header_build,
            revision,
            id: scan.effective_id,
            agents,
            skills,
            combat_events: scan.combat_events,
            agent_redirection: scan.redirection,
            enabled_extensions: scan.enabled_extensions,
            map_id: scan.map_id,
            log_start_offset: scan.log_start_offset,
            log_end_time: scan.log_end_time,
            arc_version: scan.arc_version,
            gw2_build: scan.gw2_build,
            stats,
        },
    )
}

/// The instance ids of a revision 1 row sit, two little-endian bytes each,
/// from offset 40 in this order: source, target, source's master, target's
/// master.
pub proof fn law_rev1_instance_ids(s: Seq<u8>)
    requires
        s.len() == 64,
    ensures
        row_rev1(s).src_instid == s[40] + 256 * s[41],
        row_rev1(s).dst_instid == s[42] + 256 * s[43],
        row_rev1(s).src_master_instid == s[44] + 256 * s[45],
        row_rev1(s).dst_master_instid == s[46] + 256 * s[47],
        row_of(1, s) == row_rev1(s),
{
}

/// In a revision 0 row the instance ids sit, two little-endian bytes each,
/// from offset 36: source, target, source's master; a target's master is
/// not recorded.
pub proof fn law_rev0_instance_ids(s: Seq<u8>)
    requires
        s.len() == 64,
    ensures
        row_rev0(s).src_instid == s[36] + 256 * s[37],
        row_rev0(s).dst_instid == s[38] + 256 * s[39],
        row_rev0(s).src_master_instid == s[40] + 256 * s[41],
        row_rev0(s).dst_master_instid == 0,
        row_of(0, s) == row_rev0(s),
{
}

/// Both revisions lay out the head of a row alike: the time, the source
/// and target addresses and the two damage values take the same bytes.
/// In revision 1 the addresses are the little-endian 8 bytes at offsets 8
/// and 16, the skill id the 4 bytes at 36, and the state change, affinity
/// and activation the bytes at 56, 48 and 51.
pub proof fn law_row_head_layout(s: Seq<u8>)
    requires
        s.len() == 64,
    ensures
        row_rev0(s).time == row_rev1(s).time,
        row_rev0(s).src_agent == row_rev1(s).src_agent,
        row_rev0(s).dst_agent == row_rev1(s).dst_agent,
        row_rev0(s).value == row_rev1(s).value,
        row_rev0(s).buff_dmg == row_rev1(s).buff_dmg,
        row_rev1(s).src_agent as int == le8(s, 8),
        row_rev1(s).dst_agent as int == le8(s, 16),
        row_rev1(s).skill_id as int == le4(s, 36),
        row_rev1(s).state_change_raw == s[56],
        row_rev1(s).iff_raw == s[48],
        row_rev1(s).activation_raw == s[51],
{
    assert(0 <= le2(s, 8) < 0x1_0000 && 0 <= le2(s, 10) < 0x1_0000 && 0 <= le2(s, 12) < 0x1_0000 && 0 <= le2(s, 14) < 0x1_0000);
    assert(0 <= le2(s, 16) < 0x1_0000 && 0 <= le2(s, 18) < 0x1_0000 && 0 <= le2(s, 20) < 0x1_0000 && 0 <= le2(s, 22) < 0x1_0000);
    assert(0 <= le2(s, 36) < 0x1_0000 && 0 <= le2(s, 38) < 0x1_0000);
}

} // verus!
