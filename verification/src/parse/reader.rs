//! Little-endian cursor over a byte slice.

use vstd::prelude::*;
use crate::parse::error::EvtcError;

verus! {

/// Unsigned value of the 2 bytes of `s` at `p`, little-endian.
pub open spec fn le2(s: Seq<u8>, p: int) -> int {
    s[p] as int + 256 * (s[p + 1] as int)
}

/// Unsigned value of the 4 bytes of `s` at `p`, little-endian.
pub open spec fn le4(s: Seq<u8>, p: int) -> int {
    le2(s, p) + 65536 * le2(s, p + 2)
}

/// Unsigned value of the 8 bytes of `s` at `p`, little-endian.
pub open spec fn le8(s: Seq<u8>, p: int) -> int {
    le4(s, p) + 4294967296 * le4(s, p + 4)
}

/// Two's complement reading of an unsigned 32-bit value.
pub open spec fn signed32(u: int) -> int {
    if u < 0x8000_0000 { u } else { u - 0x1_0000_0000 }
}

/// Two's complement reading of an unsigned 64-bit value.
pub open spec fn signed64(u: int) -> int {
    if u < 0x8000_0000_0000_0000 { u } else { u - 0x1_0000_0000_0000_0000 }
}

/// The error of a read of `required` bytes at `position` in `len` bytes.
pub open spec fn end_error(len: int, position: int, required: int) -> EvtcError {
    EvtcError::UnexpectedEnd {
        position: position as usize,
        required: required as usize,
        remaining: (len - position) as usize,
    }
}

pub struct Reader<'a> {
    pub bytes: &'a [u8],
    pub position: usize,
}

impl<'a> Reader<'a> {
    pub open spec fn wf(&self) -> bool {
        self.position <= self.bytes@.len()
    }

    pub open spec fn len(&self) -> int {
        self.bytes@.len() as int
    }

    pub open spec fn pos(&self) -> int {
        self.position as int
    }

    /// Outcome of a read of `n` bytes: the bytes move on by `n` on success,
    /// stay where they are on failure, and failure is exactly running short.
    pub open spec fn read_ok(old: &Reader<'a>, new: &Reader<'a>, n: int, ok: bool) -> bool {
        &&& new.bytes == old.bytes
        &&& ok <==> old.pos() + n <= old.len()
        &&& ok ==> new.pos() == old.pos() + n
        &&& !ok ==> new.pos() == old.pos()
    }

    pub fn new(bytes: &'a [u8]) -> (r: Self)
        ensures
            r.bytes == bytes,
            r.position == 0,
            r.wf(),
    {
        Reader { bytes, position: 0 }
    }

    pub fn remaining(&self) -> (r: usize)
        requires
            self.wf(),
        ensures
            r == self.len() - self.pos(),
    {
        self.bytes.len() - self.position
    }

    fn ensure_available(&self, byte_count: usize) -> (r: Result<(), EvtcError>)
        requires
            self.wf(),
        ensures
            r is Ok <==> self.pos() + byte_count <= self.len(),
            r is Err ==> r == Err::<(), EvtcError>(end_error(self.len(), self.pos(), byte_count as int)),
    {
        if self.remaining() < byte_count {
            return Err(EvtcError::UnexpectedEnd {
                position: self.position,
                required: byte_count,
                remaining: self.remaining(),
            });
        }
        Ok(())
    }

    pub fn read_u8(&mut self) -> (r: Result<u8, EvtcError>)
        requires
            old(self).wf(),
        ensures
            final(self).wf(),
            Self::read_ok(old(self), final(self), 1, r is Ok),
            r is Ok ==> r->Ok_0 == old(self).bytes@[old(self).pos()],
            r is Err ==> r == Err::<u8, EvtcError>(end_error(old(self).len(), old(self).pos(), 1)),
    {
        self.ensure_available(1)?;
        let b = self.bytes[self.position];
        self.position = self.position + 1;
        Ok(b)
    }

    pub fn read_u16(&mut self) -> (r: Result<u16, EvtcError>)
        requires
            old(self).wf(),
        ensures
            final(self).wf(),
            Self::read_ok(old(self), final(self), 2, r is Ok),
            r is Ok ==> r->Ok_0 == le2(old(self).bytes@, old(self).pos()),
            r is Err ==> r == Err::<u16, EvtcError>(end_error(old(self).len(), old(self).pos(), 2)),
    {
        self.ensure_available(2)?;
        let _len = self.bytes.len();
        let v = u16_at(self.bytes, self.position);
        self.position = self.position + 2;
        Ok(v)
    }

    pub fn read_u32(&mut self) -> (r: Result<u32, EvtcError>)
        requires
            old(self).wf(),
        ensures
            final(self).wf(),
            Self::read_ok(old(self), final(self), 4, r is Ok),
            r is Ok ==> r->Ok_0 == le4(old(self).bytes@, old(self).pos()),
            r is Err ==> r == Err::<u32, EvtcError>(end_error(old(self).len(), old(self).pos(), 4)),
    {
        self.ensure_available(4)?;
        let _len = self.bytes.len();
        let v = u32_at(self.bytes, self.position);
        self.position = self.position + 4;
        Ok(v)
    }

    pub fn read_i32(&mut self) -> (r: Result<i32, EvtcError>)
        requires
            old(self).wf(),
        ensures
            final(self).wf(),
            Self::read_ok(old(self), final(self), 4, r is Ok),
            r is Ok ==> r->Ok_0 == signed32(le4(old(self).bytes@, old(self).pos())),
            r is Err ==> r == Err::<i32, EvtcError>(end_error(old(self).len(), old(self).pos(), 4)),
    {
        self.ensure_available(4)?;
        let _len = self.bytes.len();
        let v = i32_at(self.bytes, self.position);
        self.position = self.position + 4;
        Ok(v)
    }

    pub fn read_u64(&mut self) -> (r: Result<u64, EvtcError>)
        requires
            old(self).wf(),
        ensures
            final(self).wf(),
            Self::read_ok(old(self), final(self), 8, r is Ok),
            r is Ok ==> r->Ok_0 == le8(old(self).bytes@, old(self).pos()),
            r is Err ==> r == Err::<u64, EvtcError>(end_error(old(self).len(), old(self).pos(), 8)),
    {
        self.ensure_available(8)?;
        let _len = self.bytes.len();
        let v = u64_at(self.bytes, self.position);
        self.position = self.position + 8;
        Ok(v)
    }

    pub fn read_i64(&mut self) -> (r: Result<i64, EvtcError>)
        requires
            old(self).wf(),
        ensures
            final(self).wf(),
            Self::read_ok(old(self), final(self), 8, r is Ok),
            r is Ok ==> r->Ok_0 == signed64(le8(old(self).bytes@, old(self).pos())),
            r is Err ==> r == Err::<i64, EvtcError>(end_error(old(self).len(), old(self).pos(), 8)),
    {
        self.ensure_available(8)?;
        let _len = self.bytes.len();
        let v = i64_at(self.bytes, self.position);
        self.position = self.position + 8;
        Ok(v)
    }

    /// The next `byte_count` bytes, undecoded.
    pub fn take_bytes(&mut self, byte_count: usize) -> (r: Result<&'a [u8], EvtcError>)
        requires
            old(self).wf(),
        ensures
            final(self).wf(),
            Self::read_ok(old(self), final(self), byte_count as int, r is Ok),
            r is Ok ==> r->Ok_0@ == old(self).bytes@.subrange(
                old(self).pos(),
                old(self).pos() + byte_count,
            ),
            r is Err ==> r == Err::<&'a [u8], EvtcError>(
                end_error(old(self).len(), old(self).pos(), byte_count as int),
            ),
    {
        let avail = self.ensure_available(byte_count);
        if avail.is_err() {
            return Err(EvtcError::UnexpectedEnd {
                position: self.position,
                required: byte_count,
                remaining: self.remaining(),
            });
        }
        let _total = self.bytes.len();
        let start = self.position;
        let out = slice_range(self.bytes, start, start + byte_count);
        self.position = start + byte_count;
        Ok(out)
    }

    pub fn skip(&mut self, byte_count: usize) -> (r: Result<(), EvtcError>)
        requires
            old(self).wf(),
        ensures
            final(self).wf(),
            Self::read_ok(old(self), final(self), byte_count as int, r is Ok),
            r is Err ==> r == Err::<(), EvtcError>(
                end_error(old(self).len(), old(self).pos(), byte_count as int),
            ),
    {
        let avail = self.ensure_available(byte_count);
        if avail.is_err() {
            return Err(EvtcError::UnexpectedEnd {
                position: self.position,
                required: byte_count,
                remaining: self.remaining(),
            });
        }
        let _total = self.bytes.len();
        self.position = self.position + byte_count;
        Ok(())
    }
}

/// The 2 bytes of `s` at `p` as a little-endian `u16`.
pub fn u16_at(s: &[u8], p: usize) -> (r: u16)
    requires
        p + 2 <= s@.len(),
    ensures
        r == le2(s@, p as int),
{
    s[p] as u16 + (s[p + 1] as u16) * 256
}

/// The 4 bytes of `s` at `p` as a little-endian `u32`.
pub fn u32_at(s: &[u8], p: usize) -> (r: u32)
    requires
        p + 4 <= s@.len(),
    ensures
        r == le4(s@, p as int),
{
    let _len = s.len();
    let lo = u16_at(s, p) as u32;
    let hi = u16_at(s, p + 2) as u32;
    lo + hi * 65536
}

/// The 4 bytes of `s` at `p` as a little-endian two's complement `i32`.
pub fn i32_at(s: &[u8], p: usize) -> (r: i32)
    requires
        p + 4 <= s@.len(),
    ensures
        r == signed32(le4(s@, p as int)),
{
    let u = u32_at(s, p);
    if u < 0x8000_0000 {
        u as i32
    } else {
        (u as i64 - 0x1_0000_0000i64) as i32
    }
}

/// The 8 bytes of `s` at `p` as a little-endian `u64`.
pub fn u64_at(s: &[u8], p: usize) -> (r: u64)
    requires
        p + 8 <= s@.len(),
    ensures
        r == le8(s@, p as int),
{
    let _len = s.len();
    let lo = u32_at(s, p) as u64;
    let hi = u32_at(s, p + 4) as u64;
    lo + hi * 4294967296
}

/// The 8 bytes of `s` at `p` as a little-endian two's complement `i64`.
pub fn i64_at(s: &[u8], p: usize) -> (r: i64)
    requires
        p + 8 <= s@.len(),
    ensures
        r == signed64(le8(s@, p as int)),
{
    let u = u64_at(s, p);
    if u < 0x8000_0000_0000_0000 {
        u as i64
    } else {
        let below: u64 = 0xFFFF_FFFF_FFFF_FFFF - u;
        -1i64 - below as i64
    }
}

/// `&s[start..end]`.
pub fn slice_range<'b>(s: &'b [u8], start: usize, end: usize) -> (r: &'b [u8])
    requires
        start <= end <= s@.len(),
    ensures
        r@ == s@.subrange(start as int, end as int),
{
    &s[start..end]
}

} // verus!
