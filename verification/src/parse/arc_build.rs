//! Recording-tool build rows: the 48 field bytes of the row hold a text
//! `"{build}.{revision}"`.

use vstd::prelude::*;
use vstd::string::StrSliceExecFns;
use crate::parse::models::EvtcCombatItem;
use crate::text::{lossy_utf8, utf8_lossy};

verus! {

// ===== bytes of the row fields =====

pub open spec fn u16_le(x: u16) -> Seq<u8> {
    seq![(x % 256) as u8, (x / 256) as u8]
}

pub open spec fn u32_le(x: u32) -> Seq<u8> {
    seq![
        (x % 256) as u8,
        ((x / 256) % 256) as u8,
        ((x / 65536) % 256) as u8,
        (x / 16777216) as u8,
    ]
}

pub open spec fn u64_le(x: u64) -> Seq<u8> {
    u32_le((x % 0x1_0000_0000) as u32) + u32_le((x / 0x1_0000_0000) as u32)
}

/// Two's complement bits of a signed 32-bit value.
pub open spec fn bits32(x: i32) -> u32 {
    if x >= 0 { x as u32 } else { (x + 0x1_0000_0000) as u32 }
}

/// The 48 bytes that the payload text is decoded from: the row fields from
/// the source agent to `is_moving`, each little-endian.
pub open spec fn payload_of(item: EvtcCombatItem) -> Seq<u8> {
    u64_le(item.src_agent) + u64_le(item.dst_agent) + u32_le(bits32(item.value)) + u32_le(
        bits32(item.buff_dmg),
    ) + u32_le(item.overstack_value) + u32_le(item.skill_id) + u16_le(item.src_instid) + u16_le(
        item.dst_instid,
    ) + u16_le(item.src_master_instid) + u16_le(item.dst_master_instid) + seq![
        item.iff_raw,
        item.buff,
        item.result,
        item.activation_raw,
        item.buff_remove_raw,
        item.is_ninety,
        item.is_fifty,
        item.is_moving,
    ]
}

// ===== text helpers =====

/// Unicode `White_Space` (the set `char::is_whitespace` and `str::trim` use).
pub open spec fn is_white_space(c: char) -> bool {
    let u = c as u32;
    ||| 9 <= u <= 13
    ||| u == 32
    ||| u == 0x85
    ||| u == 0xA0
    ||| u == 0x1680
    ||| 0x2000 <= u <= 0x200A
    ||| u == 0x2028
    ||| u == 0x2029
    ||| u == 0x202F
    ||| u == 0x205F
    ||| u == 0x3000
}

/// `s` without its trailing NUL characters.
pub open spec fn trim_nul_end(s: Seq<char>) -> Seq<char>
    decreases s.len(),
{
    if s.len() > 0 && s.last() == '\0' {
        trim_nul_end(s.drop_last())
    } else {
        s
    }
}

pub open spec fn trim_ws_front(s: Seq<char>) -> Seq<char>
    decreases s.len(),
{
    if s.len() > 0 && is_white_space(s[0]) {
        trim_ws_front(s.drop_first())
    } else {
        s
    }
}

pub open spec fn trim_ws_back(s: Seq<char>) -> Seq<char>
    decreases s.len(),
{
    if s.len() > 0 && is_white_space(s.last()) {
        trim_ws_back(s.drop_last())
    } else {
        s
    }
}

/// `str::trim`: both ends without white space.
pub open spec fn trim_ws(s: Seq<char>) -> Seq<char> {
    trim_ws_back(trim_ws_front(s))
}

/// Index of the first `c` in `s`.
pub open spec fn index_of(s: Seq<char>, c: char) -> Option<int>
    decreases s.len(),
{
    if s.len() == 0 {
        None
    } else if s[0] == c {
        Some(0)
    } else {
        match index_of(s.drop_first(), c) {
            Some(i) => Some(i + 1),
            None => None,
        }
    }
}

/// The text before the first `c` (all of `s` when there is none).
pub open spec fn left_of(s: Seq<char>, c: char) -> Seq<char> {
    match index_of(s, c) {
        Some(i) => s.subrange(0, i),
        None => s,
    }
}

/// The text after the first `c` (empty when there is none).
pub open spec fn right_of(s: Seq<char>, c: char) -> Seq<char> {
    match index_of(s, c) {
        Some(i) => s.subrange(i + 1, s.len() as int),
        None => Seq::empty(),
    }
}

pub open spec fn is_digit(c: char) -> bool {
    48 <= (c as u32) <= 57
}

pub open spec fn all_digits(s: Seq<char>) -> bool {
    forall|i: int| 0 <= i < s.len() ==> is_digit(s[i])
}

/// Decimal value of a digit string.
pub open spec fn digits_val(s: Seq<char>) -> nat
    decreases s.len(),
{
    if s.len() == 0 {
        0
    } else {
        10 * digits_val(s.drop_last()) + ((s.last() as u32) - 48) as nat
    }
}

/// `str::parse::<i32>`: an optional sign and at least one ASCII digit, in range.
pub open spec fn parse_i32(s: Seq<char>) -> Option<i32> {
    if s.len() == 0 {
        None
    } else {
        let neg = s[0] == '-';
        let digits = if s[0] == '-' || s[0] == '+' { s.drop_first() } else { s };
        if digits.len() == 0 || !all_digits(digits) {
            None
        } else if neg {
            if digits_val(digits) <= 0x8000_0000 {
                Some((0 - digits_val(digits)) as i32)
            } else {
                None
            }
        } else if digits_val(digits) <= 0x7FFF_FFFF {
            Some(digits_val(digits) as i32)
        } else {
            None
        }
    }
}

/// The (build, revision) a build row carries, if its text parses.
pub open spec fn arc_payload_spec(item: EvtcCombatItem) -> Option<(i32, i32)> {
    let text = trim_nul_end(lossy_utf8(payload_of(item)));
    match parse_i32(trim_ws(left_of(text, '.'))) {
        None => None,
        Some(build) => match parse_i32(trim_ws(left_of(right_of(text, '.'), '-'))) {
            None => None,
            Some(revision) => Some((build, revision)),
        },
    }
}

// ===== exec =====

fn push_u16(v: &mut Vec<u8>, x: u16)
    ensures
        final(v)@ == old(v)@ + u16_le(x),
{
    v.push((x % 256) as u8);
    v.push((x / 256) as u8);
    assert(final(v)@ =~= old(v)@ + u16_le(x));
}

fn push_u32(v: &mut Vec<u8>, x: u32)
    ensures
        final(v)@ == old(v)@ + u32_le(x),
{
    v.push((x % 256) as u8);
    v.push(((x / 256) % 256) as u8);
    v.push(((x / 65536) % 256) as u8);
    v.push((x / 16777216) as u8);
    assert(final(v)@ =~= old(v)@ + u32_le(x));
}

fn push_u64(v: &mut Vec<u8>, x: u64)
    ensures
        final(v)@ == old(v)@ + u64_le(x),
{
    let ghost v0 = v@;
    push_u32(v, (x % 0x1_0000_0000) as u32);
    push_u32(v, (x / 0x1_0000_0000) as u32);
    assert(final(v)@ =~= v0 + u64_le(x));
}

fn to_bits32(x: i32) -> (r: u32)
    ensures
        r == bits32(x),
{
    if x >= 0 {
        x as u32
    } else {
        (x as i64 + 0x1_0000_0000i64) as u32
    }
}

/// The 48 payload bytes of a build row.
pub fn payload_bytes(item: &EvtcCombatItem) -> (r: Vec<u8>)
    ensures
        r@ == payload_of(*item),
{
    let mut v: Vec<u8> = Vec::new();
    push_u64(&mut v, item.src_agent);
    push_u64(&mut v, item.dst_agent);
    push_u32(&mut v, to_bits32(item.value));
    push_u32(&mut v, to_bits32(item.buff_dmg));
    push_u32(&mut v, item.overstack_value);
    push_u32(&mut v, item.skill_id);
    push_u16(&mut v, item.src_instid);
    push_u16(&mut v, item.dst_instid);
    push_u16(&mut v, item.src_master_instid);
    push_u16(&mut v, item.dst_master_instid);
    let ghost before = v@;
    v.push(item.iff_raw);
    v.push(item.buff);
    v.push(item.result);
    v.push(item.activation_raw);
    v.push(item.buff_remove_raw);
    v.push(item.is_ninety);
    v.push(item.is_fifty);
    v.push(item.is_moving);
    assert(v@ =~= payload_of(*item));
    v
}

pub(crate) fn to_chars(s: &String) -> (r: Vec<char>)
    ensures
        r@ == s@,
{
    let n = s.as_str().unicode_len();
    let mut out: Vec<char> = Vec::new();
    let mut i: usize = 0;
    while i < n
        invariant
            n == s@.len(),
            i <= n,
            out@ == s@.subrange(0, i as int),
        decreases n - i,
    {
        let c = s.as_str().get_char(i);
        out.push(c);
        i = i + 1;
        assert(out@ =~= s@.subrange(0, i as int));
    }
    assert(out@ =~= s@);
    out
}

pub(crate) fn sub_chars(v: &Vec<char>, lo: usize, hi: usize) -> (r: Vec<char>)
    requires
        lo <= hi <= v@.len(),
    ensures
        r@ == v@.subrange(lo as int, hi as int),
{
    let mut out: Vec<char> = Vec::new();
    let mut i = lo;
    while i < hi
        invariant
            lo <= i <= hi <= v@.len(),
            out@ == v@.subrange(lo as int, i as int),
        decreases hi - i,
    {
        out.push(v[i]);
        i = i + 1;
        assert(out@ =~= v@.subrange(lo as int, i as int));
    }
    out
}

fn white_space(c: char) -> (r: bool)
    ensures
        r == is_white_space(c),
{
    let u = c as u32;
    (9 <= u && u <= 13) || u == 32 || u == 0x85 || u == 0xA0 || u == 0x1680 || (0x2000 <= u
        && u <= 0x200A) || u == 0x2028 || u == 0x2029 || u == 0x202F || u == 0x205F || u == 0x3000
}

fn trim_nul_end_exec(v: &Vec<char>) -> (r: Vec<char>)
    ensures
        r@ == trim_nul_end(v@),
{
    let mut end = v.len();
    assert(v@.subrange(0, end as int) =~= v@);
    while end > 0 && v[end - 1] == '\0'
        invariant
            end <= v@.len(),
            trim_nul_end(v@) == trim_nul_end(v@.subrange(0, end as int)),
        decreases end,
    {
        assert(v@.subrange(0, end as int).drop_last() =~= v@.subrange(0, end - 1));
        end = end - 1;
    }
    sub_chars(v, 0, end)
}

fn trim_ws_exec(v: &Vec<char>) -> (r: Vec<char>)
    ensures
        r@ == trim_ws(v@),
{
    let mut start: usize = 0;
    assert(v@.subrange(0, v@.len() as int) =~= v@);
    while start < v.len() && white_space(v[start])
        invariant
            start <= v@.len(),
            trim_ws_front(v@) == trim_ws_front(v@.subrange(start as int, v@.len() as int)),
        decreases v@.len() - start,
    {
        assert(v@.subrange(start as int, v@.len() as int).drop_first() =~= v@.subrange(
            start + 1,
            v@.len() as int,
        ));
        start = start + 1;
    }
    let front = sub_chars(v, start, v.len());
    let mut end = front.len();
    assert(front@.subrange(0, end as int) =~= front@);
    while end > 0 && white_space(front[end - 1])
        invariant
            end <= front@.len(),
            trim_ws_back(front@) == trim_ws_back(front@.subrange(0, end as int)),
        decreases end,
    {
        assert(front@.subrange(0, end as int).drop_last() =~= front@.subrange(0, end - 1));
        end = end - 1;
    }
    sub_chars(&front, 0, end)
}

pub(crate) proof fn lemma_index_of(s: Seq<char>, c: char)
    ensures
        index_of(s, c) matches Some(i) ==> 0 <= i < s.len() && s[i] == c && forall|j: int|
            0 <= j < i ==> s[j] != c,
        index_of(s, c) is None ==> forall|j: int| 0 <= j < s.len() ==> s[j] != c,
    decreases s.len(),
{
    if s.len() > 0 && s[0] != c {
        lemma_index_of(s.drop_first(), c);
        assert forall|j: int| 1 <= j < s.len() implies s[j] == s.drop_first()[j - 1] by {}
    }
}

/// `index_of` pinned by its characterisation.
proof fn lemma_index_of_unique(s: Seq<char>, c: char, k: int)
    requires
        0 <= k <= s.len(),
        forall|j: int| 0 <= j < k ==> s[j] != c,
        k < s.len() ==> s[k] == c,
    ensures
        k < s.len() ==> index_of(s, c) == Some(k),
        k == s.len() ==> index_of(s, c) is None,
{
    lemma_index_of(s, c);
}

pub(crate) fn find_char(v: &Vec<char>, c: char) -> (r: Option<usize>)
    ensures
        r matches Some(i) ==> i < v@.len(),
        match r {
            Some(i) => index_of(v@, c) == Some(i as int),
            None => index_of(v@, c) is None,
        },
{
    let mut i: usize = 0;
    while i < v.len()
        invariant
            i <= v@.len(),
            forall|j: int| 0 <= j < i ==> v@[j] != c,
        decreases v@.len() - i,
    {
        if v[i] == c {
            proof {
                lemma_index_of_unique(v@, c, i as int);
            }
            return Some(i);
        }
        i = i + 1;
    }
    proof {
        lemma_index_of_unique(v@, c, i as int);
    }
    None
}

fn left_of_exec(v: &Vec<char>, c: char) -> (r: Vec<char>)
    ensures
        r@ == left_of(v@, c),
{
    match find_char(v, c) {
        Some(i) => {
            proof {
                lemma_index_of(v@, c);
            }
            sub_chars(v, 0, i)
        },
        None => sub_chars(v, 0, v.len()),
    }
}

fn right_of_exec(v: &Vec<char>, c: char) -> (r: Vec<char>)
    ensures
        r@ == right_of(v@, c),
{
    match find_char(v, c) {
        Some(i) => {
            let n = v.len();
            proof {
                lemma_index_of(v@, c);
            }
            sub_chars(v, i + 1, n)
        },
        None => {
            let e: Vec<char> = Vec::new();
            assert(e@ =~= Seq::<char>::empty());
            e
        },
    }
}

proof fn lemma_digits_val_grows(s: Seq<char>, k: int)
    requires
        0 <= k <= s.len(),
        all_digits(s),
    ensures
        digits_val(s.subrange(0, k)) <= digits_val(s),
    decreases s.len() - k,
{
    if k < s.len() {
        lemma_digits_val_grows(s, k + 1);
        assert(s.subrange(0, k + 1).drop_last() =~= s.subrange(0, k));
    } else {
        assert(s.subrange(0, k) =~= s);
    }
}

/// `str::parse::<i32>` over characters.
pub(crate) fn parse_i32_exec(v: &Vec<char>) -> (r: Option<i32>)
    ensures
        r == parse_i32(v@),
{
    if v.len() == 0 {
        return None;
    }
    let neg = v[0] == '-';
    let digits = if v[0] == '-' || v[0] == '+' {
        sub_chars(v, 1, v.len())
    } else {
        sub_chars(v, 0, v.len())
    };
    assert(v@.drop_first() =~= v@.subrange(1, v@.len() as int));
    assert(v@ =~= v@.subrange(0, v@.len() as int));
    let ghost ds = if v@[0] == '-' || v@[0] == '+' { v@.drop_first() } else { v@ };
    assert(digits@ == ds);
    if digits.len() == 0 {
        return None;
    }
    let mut val: u64 = 0;
    let mut i: usize = 0;
    while i < digits.len()
        invariant
            i <= digits@.len(),
            v@.len() > 0,
            digits@ == ds,
            digits@.len() > 0,
            neg == (v@[0] == '-'),
            ds == (if v@[0] == '-' || v@[0] == '+' { v@.drop_first() } else { v@ }),
            forall|j: int| 0 <= j < i ==> is_digit(digits@[j]),
            val == digits_val(digits@.subrange(0, i as int)),
            val <= 0x8000_0000,
        decreases digits@.len() - i,
    {
        let c = digits[i] as u32;
        if !(48 <= c && c <= 57) {
            assert(!is_digit(digits@[i as int]));
            assert(!all_digits(ds));
            return None;
        }
        let d = (c - 48) as u64;
        assert(digits@.subrange(0, i + 1).drop_last() =~= digits@.subrange(0, i as int));
        let next = val * 10 + d;
        i = i + 1;
        if next > 0x8000_0000 {
            proof {
                if all_digits(digits@) {
                    lemma_digits_val_grows(digits@, i as int);
                    assert(digits_val(ds) > 0x8000_0000);
                }
            }
            return None;
        }
        val = next;
    }
    assert(digits@.subrange(0, i as int) =~= digits@);
    if neg {
        Some((0i64 - val as i64) as i32)
    } else if val <= 0x7FFF_FFFF {
        Some(val as i32)
    } else {
        None
    }
}

/// Parses a build row's payload text: the integer left of the first `.` and
/// the integer between that `.` and the next `-`, each trimmed.
pub fn parse_arc_build_payload(item: &EvtcCombatItem) -> (r: Option<(i32, i32)>)
    ensures
        r == arc_payload_spec(*item),
{
    let buf = payload_bytes(item);
    let lossy = utf8_lossy(buf.as_slice());
    let chars = to_chars(&lossy);
    let text = trim_nul_end_exec(&chars);
    let left = left_of_exec(&text, '.');
    let left_t = trim_ws_exec(&left);
    let build = match parse_i32_exec(&left_t) {
        Some(b) => b,
        None => return None,
    };
    let after_dot = right_of_exec(&text, '.');
    let rev_part = left_of_exec(&after_dot, '-');
    let rev_t = trim_ws_exec(&rev_part);
    match parse_i32_exec(&rev_t) {
        Some(revision) => Some((build, revision)),
        None => None,
    }
}

} // verus!
