//! A bounds-checked reader over an immutable byte buffer.
//!
//! A [`Cursor`] is a buffer, a position and a limit, with
//! `position <= limit <= buffer length` at all times. Every read consumes a
//! known number of bytes, or fails with
//! [`DecodeError::TruncatedData`] and leaves the cursor where it was.

use crate::bytes::{le_i32, le_u16, le_u32, to_signed, u16_at, u32_at, until_nul};
use crate::error::DecodeError;
use vstd::prelude::*;
use vstd::slice::{slice_subrange, slice_to_vec};

verus! {

/// A float held as its IEEE-754 single-precision bit pattern.
#[derive(Clone, Copy, Debug, PartialEq, Eq, Structural)]
pub struct Float32 {
    pub bits: u32,
}

/// What a cursor is, mathematically: the whole buffer, the offset of the next
/// byte to read, and the offset that no read may pass.
pub struct CursorView {
    pub buf: Seq<u8>,
    pub pos: int,
    pub limit: int,
}

impl CursorView {
    /// `0 <= pos <= limit <= buf.len()`, and the buffer is one that fits in
    /// memory.
    pub open spec fn wf(self) -> bool {
        0 <= self.pos <= self.limit <= self.buf.len() <= usize::MAX
    }

    /// The number of bytes between the position and the limit.
    pub open spec fn remaining(self) -> int {
        self.limit - self.pos
    }

    /// The same window, `n` bytes further on.
    pub open spec fn advance(self, n: int) -> CursorView {
        CursorView { buf: self.buf, pos: self.pos + n, limit: self.limit }
    }

    /// The same buffer and limit, positioned at `pos`.
    pub open spec fn at(self, pos: int) -> CursorView {
        CursorView { buf: self.buf, pos: pos, limit: self.limit }
    }

    /// The window of `len` bytes that starts at the position.
    pub open spec fn scoped(self, len: int) -> CursorView {
        CursorView { buf: self.buf, pos: self.pos, limit: self.pos + len }
    }

    /// The byte `off` bytes after the position.
    pub open spec fn u8_at(self, off: int) -> u8 {
        self.buf[self.pos + off]
    }

    /// The little-endian `u16` that starts `off` bytes after the position.
    pub open spec fn u16_at(self, off: int) -> u16 {
        le_u16(self.buf, self.pos + off)
    }

    /// The little-endian `u32` that starts `off` bytes after the position.
    pub open spec fn u32_at(self, off: int) -> u32 {
        le_u32(self.buf, self.pos + off)
    }

    /// The float whose bit pattern starts `off` bytes after the position.
    pub open spec fn f32_at(self, off: int) -> Float32 {
        Float32 { bits: le_u32(self.buf, self.pos + off) }
    }

    /// The bytes from the position to the limit.
    pub open spec fn rest(self) -> Seq<u8> {
        self.buf.subrange(self.pos, self.limit)
    }

    /// The two windows cover the same offsets and hold the same bytes there,
    /// whatever their buffers hold elsewhere.
    pub open spec fn agrees(self, other: CursorView) -> bool {
        &&& self.wf()
        &&& other.wf()
        &&& self.pos == other.pos
        &&& self.limit == other.limit
        &&& forall|i: int| self.pos <= i < self.limit ==> self.buf[i] == other.buf[i]
    }

    /// `later` reads the same buffer under the same limit, and is not behind
    /// `self`.
    pub open spec fn precedes(self, later: CursorView) -> bool {
        &&& later.buf == self.buf
        &&& later.limit == self.limit
        &&& self.pos <= later.pos
    }
}

/// The window over the whole of `buf`, positioned at its start.
pub open spec fn whole(buf: Seq<u8>) -> CursorView {
    CursorView { buf, pos: 0, limit: buf.len() as int }
}

/// A scope is passed over by its size. When a window of `len` bytes is split
/// off `parent`, the parent continues exactly `len` bytes after the child's
/// start, which is the child's limit: wherever the child stands by then
/// (`child_now`), it has not passed the point where the parent continues.
pub proof fn lemma_scope_skipped_by_size(parent: CursorView, len: int, child_now: CursorView)
    requires
        parent.wf(),
        0 <= len <= parent.remaining(),
        parent.scoped(len).precedes(child_now),
        child_now.wf(),
    ensures
        parent.scoped(len).wf(),
        parent.advance(len).wf(),
        parent.scoped(len).pos == parent.pos,
        parent.advance(len).pos == parent.scoped(len).pos + len,
        parent.advance(len).pos == child_now.limit,
        child_now.pos <= parent.advance(len).pos,
{
}

/// A reader over `buf` that never reads at or beyond `limit`.
#[derive(Debug)]
pub struct Cursor<'a> {
    buf: &'a [u8],
    pos: usize,
    limit: usize,
}

impl<'a> View for Cursor<'a> {
    type V = CursorView;

    closed spec fn view(&self) -> CursorView {
        CursorView { buf: self.buf@, pos: self.pos as int, limit: self.limit as int }
    }
}

impl<'a> Cursor<'a> {
    /// The invariant of every cursor: its view is well formed.
    #[verifier::type_invariant]
    pub open spec fn inv(&self) -> bool {
        self@.wf()
    }

    /// A cursor over the whole of `buf`, positioned at its first byte.
    pub fn new(buf: &'a [u8]) -> (cursor: Cursor<'a>)
        ensures
            cursor@ == whole(buf@),
            cursor@.wf(),
    {
        Cursor { buf, pos: 0, limit: buf.len() }
    }

    /// A second cursor over the same window, at the same position. Reading
    /// from it does not move this one.
    pub fn fork(&self) -> (twin: Cursor<'a>)
        ensures
            twin@ == self@,
            twin@.wf(),
    {
        proof {
            use_type_invariant(self);
        }
        Cursor { buf: self.buf, pos: self.pos, limit: self.limit }
    }

    /// The offset, from the start of the buffer, of the next byte to read.
    pub fn position(&self) -> (pos: usize)
        ensures
            pos == self@.pos,
            self@.wf(),
    {
        proof {
            use_type_invariant(self);
        }
        self.pos
    }

    /// The number of bytes that can still be read.
    pub fn remaining(&self) -> (n: usize)
        ensures
            n == self@.remaining(),
            self@.wf(),
    {
        proof {
            use_type_invariant(self);
        }
        self.limit - self.pos
    }

    /// Reads one byte.
    pub fn read_u8(&mut self) -> (r: Result<u8, DecodeError>)
        ensures
            final(self)@.wf(),
            match r {
                Ok(v) => {
                    &&& old(self)@.remaining() >= 1
                    &&& v == old(self)@.buf[old(self)@.pos]
                    &&& final(self)@ == old(self)@.advance(1)
                },
                Err(e) => {
                    &&& e == DecodeError::TruncatedData
                    &&& old(self)@.remaining() < 1
                    &&& final(self)@ == old(self)@
                },
            },
    {
        proof {
            use_type_invariant(&*self);
        }
        if self.limit - self.pos < 1 {
            return Err(DecodeError::TruncatedData);
        }
        let v: u8 = self.buf[self.pos];
        self.pos = self.pos + 1;
        Ok(v)
    }

    /// Reads a little-endian `u16`.
    pub fn read_u16(&mut self) -> (r: Result<u16, DecodeError>)
        ensures
            final(self)@.wf(),
            match r {
                Ok(v) => {
                    &&& old(self)@.remaining() >= 2
                    &&& v == le_u16(old(self)@.buf, old(self)@.pos)
                    &&& final(self)@ == old(self)@.advance(2)
                },
                Err(e) => {
                    &&& e == DecodeError::TruncatedData
                    &&& old(self)@.remaining() < 2
                    &&& final(self)@ == old(self)@
                },
            },
    {
        proof {
            use_type_invariant(&*self);
        }
        if self.limit - self.pos < 2 {
            return Err(DecodeError::TruncatedData);
        }
        let v: u16 = u16_at(self.buf, self.pos);
        self.pos = self.pos + 2;
        Ok(v)
    }

    /// Reads a little-endian `u32`.
    pub fn read_u32(&mut self) -> (r: Result<u32, DecodeError>)
        ensures
            final(self)@.wf(),
            match r {
                Ok(v) => {
                    &&& old(self)@.remaining() >= 4
                    &&& v == le_u32(old(self)@.buf, old(self)@.pos)
                    &&& final(self)@ == old(self)@.advance(4)
                },
                Err(e) => {
                    &&& e == DecodeError::TruncatedData
                    &&& old(self)@.remaining() < 4
                    &&& final(self)@ == old(self)@
                },
            },
    {
        proof {
            use_type_invariant(&*self);
        }
        if self.limit - self.pos < 4 {
            return Err(DecodeError::TruncatedData);
        }
        let v: u32 = u32_at(self.buf, self.pos);
        self.pos = self.pos + 4;
        Ok(v)
    }

    /// Reads a little-endian two's-complement `i32`.
    pub fn read_i32(&mut self) -> (r: Result<i32, DecodeError>)
        ensures
            final(self)@.wf(),
            match r {
                Ok(v) => {
                    &&& old(self)@.remaining() >= 4
                    &&& v == le_i32(old(self)@.buf, old(self)@.pos)
                    &&& final(self)@ == old(self)@.advance(4)
                },
                Err(e) => {
                    &&& e == DecodeError::TruncatedData
                    &&& old(self)@.remaining() < 4
                    &&& final(self)@ == old(self)@
                },
            },
    {
        match self.read_u32() {
            Ok(word) => Ok(to_signed(word)),
            Err(e) => Err(e),
        }
    }

    /// Reads a little-endian single-precision float, as its bit pattern.
    pub fn read_f32(&mut self) -> (r: Result<Float32, DecodeError>)
        ensures
            final(self)@.wf(),
            match r {
                Ok(v) => {
                    &&& old(self)@.remaining() >= 4
                    &&& v.bits == le_u32(old(self)@.buf, old(self)@.pos)
                    &&& final(self)@ == old(self)@.advance(4)
                },
                Err(e) => {
                    &&& e == DecodeError::TruncatedData
                    &&& old(self)@.remaining() < 4
                    &&& final(self)@ == old(self)@
                },
            },
    {
        match self.read_u32() {
            Ok(word) => Ok(Float32 { bits: word }),
            Err(e) => Err(e),
        }
    }

    /// Reads the next `n` bytes as they are.
    pub fn read_fixed_bytes(&mut self, n: usize) -> (r: Result<Vec<u8>, DecodeError>)
        ensures
            final(self)@.wf(),
            match r {
                Ok(v) => {
                    &&& old(self)@.remaining() >= n
                    &&& v@ == old(self)@.buf.subrange(old(self)@.pos, old(self)@.pos + n)
                    &&& final(self)@ == old(self)@.advance(n as int)
                },
                Err(e) => {
                    &&& e == DecodeError::TruncatedData
                    &&& old(self)@.remaining() < n
                    &&& final(self)@ == old(self)@
                },
            },
    {
        proof {
            use_type_invariant(&*self);
        }
        if self.limit - self.pos < n {
            return Err(DecodeError::TruncatedData);
        }
        let bytes = slice_to_vec(slice_subrange(self.buf, self.pos, self.pos + n));
        self.pos = self.pos + n;
        Ok(bytes)
    }

    /// Reads a field of `n` bytes that holds a NUL-terminated string, and
    /// returns the bytes before the first NUL (all `n` when there is none).
    /// The whole field is consumed.
    pub fn read_fixed_string(&mut self, n: usize) -> (r: Result<Vec<u8>, DecodeError>)
        ensures
            final(self)@.wf(),
            match r {
                Ok(v) => {
                    &&& old(self)@.remaining() >= n
                    &&& v@ == until_nul(old(self)@.buf, old(self)@.pos, old(self)@.pos + n)
                    &&& final(self)@ == old(self)@.advance(n as int)
                },
                Err(e) => {
                    &&& e == DecodeError::TruncatedData
                    &&& old(self)@.remaining() < n
                    &&& final(self)@ == old(self)@
                },
            },
    {
        proof {
            use_type_invariant(&*self);
        }
        if self.limit - self.pos < n {
            return Err(DecodeError::TruncatedData);
        }
        let end: usize = self.pos + n;
        let text = text_before_nul(self.buf, self.pos, end);
        self.pos = end;
        Ok(text)
    }

    /// Splits off a cursor over exactly the next `len` bytes. The parent moves
    /// past those bytes at once, so that whatever the child reads or leaves
    /// unread, the parent continues right after them.
    pub fn sub_cursor(&mut self, len: usize) -> (r: Result<Cursor<'a>, DecodeError>)
        ensures
            final(self)@.wf(),
            match r {
                Ok(child) => {
                    &&& old(self)@.remaining() >= len
                    &&& child@ == old(self)@.scoped(len as int)
                    &&& child@.wf()
                    &&& final(self)@ == old(self)@.advance(len as int)
                },
                Err(e) => {
                    &&& e == DecodeError::TruncatedData
                    &&& old(self)@.remaining() < len
                    &&& final(self)@ == old(self)@
                },
            },
    {
        proof {
            use_type_invariant(&*self);
        }
        if self.limit - self.pos < len {
            return Err(DecodeError::TruncatedData);
        }
        let end: usize = self.pos + len;
        let child = Cursor { buf: self.buf, pos: self.pos, limit: end };
        self.pos = end;
        Ok(child)
    }

    /// Passes over the next `n` bytes.
    pub fn skip(&mut self, n: usize) -> (r: Result<(), DecodeError>)
        ensures
            final(self)@.wf(),
            match r {
                Ok(_) => {
                    &&& old(self)@.remaining() >= n
                    &&& final(self)@ == old(self)@.advance(n as int)
                },
                Err(e) => {
                    &&& e == DecodeError::TruncatedData
                    &&& old(self)@.remaining() < n
                    &&& final(self)@ == old(self)@
                },
            },
    {
        proof {
            use_type_invariant(&*self);
        }
        if self.limit - self.pos < n {
            return Err(DecodeError::TruncatedData);
        }
        self.pos = self.pos + n;
        Ok(())
    }

    /// Moves to the absolute offset `target`, forwards or backwards. A target
    /// beyond the limit is refused: the position never passes the limit.
    pub fn seek(&mut self, target: usize) -> (r: Result<(), DecodeError>)
        ensures
            final(self)@.wf(),
            match r {
                Ok(_) => target <= old(self)@.limit && final(self)@ == old(self)@.at(target as int),
                Err(e) => {
                    &&& e == DecodeError::TruncatedData
                    &&& target > old(self)@.limit
                    &&& final(self)@ == old(self)@
                },
            },
    {
        proof {
            use_type_invariant(&*self);
        }
        if target > self.limit {
            return Err(DecodeError::TruncatedData);
        }
        self.pos = target;
        Ok(())
    }
}

/// Copies `buf[at..end]` up to its first zero byte.
fn text_before_nul(buf: &[u8], at: usize, end: usize) -> (text: Vec<u8>)
    requires
        at <= end <= buf@.len(),
    ensures
        text@ == until_nul(buf@, at as int, end as int),
{
    let mut stop: usize = at;
    while stop < end && buf[stop] != 0
        invariant
            at <= stop <= end <= buf@.len(),
            until_nul(buf@, at as int, end as int) == buf@.subrange(at as int, stop as int)
                + until_nul(buf@, stop as int, end as int),
        decreases end - stop,
    {
        proof {
            let s = buf@;
            assert(until_nul(s, stop as int, end as int) == seq![s[stop as int]] + until_nul(
                s,
                stop + 1,
                end as int,
            ));
            assert(s.subrange(at as int, stop + 1) == s.subrange(at as int, stop as int)
                + seq![s[stop as int]]);
        }
        stop = stop + 1;
    }
    slice_to_vec(slice_subrange(buf, at, stop))
}

} // verus!
