//! A stream in memory: a vector of bytes with a cursor.
use vstd::prelude::*;
use crate::stream::{
    available, bytes_at, overlay, seek_target, BufRead, Read, Seek, SeekFrom, Stream, Write,
};

verus! {

/// A seek asked for an offset that is negative or larger than a `u64` holds.
#[derive(Debug, Clone, Copy, PartialEq, Eq)]
pub struct OutOfRange;

/// A vector of bytes that is read, written and sought in like a file. A
/// write past the end lengthens the vector.
#[derive(Debug)]
pub struct Cursor {
    data: Vec<u8>,
    pos: u64,
}

impl Cursor {
    /// A stream that holds `data`, with the cursor at its beginning.
    pub fn new(data: Vec<u8>) -> (r: Cursor)
        ensures
            r.bytes() == data@,
            r.cursor() == 0,
    {
        Cursor { data, pos: 0 }
    }

    /// The bytes that the stream holds.
    pub fn into_inner(self) -> (r: Vec<u8>)
        ensures
            r@ == self.bytes(),
    {
        self.data
    }

    /// The bytes that the stream holds, to look at.
    pub fn get_ref(&self) -> (r: &Vec<u8>)
        ensures
            r@ == self.bytes(),
    {
        &self.data
    }

    /// The offset of the cursor.
    pub fn position(&self) -> (r: u64)
        ensures
            r == self.cursor(),
    {
        self.pos
    }

    /// Puts the cursor at `pos`.
    pub fn set_position(&mut self, pos: u64)
        ensures
            final(self).bytes() == old(self).bytes(),
            final(self).cursor() == pos,
    {
        self.pos = pos;
    }
}

impl Clone for Cursor {
    /// A stream that holds the same bytes, with its cursor at the same
    /// offset.
    fn clone(&self) -> (r: Self)
        ensures
            r.bytes() == self.bytes(),
            r.cursor() == self.cursor(),
    {
        Cursor { data: self.data.clone(), pos: self.pos }
    }
}

impl Stream for Cursor {
    type Error = OutOfRange;

    open spec fn inv(&self) -> bool {
        true
    }

    closed spec fn bytes(&self) -> Seq<u8> {
        self.data@
    }

    closed spec fn cursor(&self) -> u64 {
        self.pos
    }
}

impl Read for Cursor {
    /// All that lies at and after the cursor.
    open spec fn ready(&self) -> nat {
        available(self.bytes(), self.cursor() as int)
    }

    /// A read of memory does not fail.
    open spec fn unfailing(&self) -> bool {
        true
    }

    /// Never fails.
    fn read(&mut self, buf: &mut [u8]) -> (r: Result<usize, OutOfRange>)
        ensures
            r is Ok,
    {
        proof {
            assert(self.ready() == available(self.bytes(), self.cursor() as int));
        }
        let len = self.data.len();
        if self.pos >= len as u64 {
            proof {
                assert(buf@.take(0) =~= Seq::<u8>::empty());
            }
            return Ok(0);
        }
        let at = self.pos as usize;
        let left = len - at;
        let n = if buf.len() <= left {
            buf.len()
        } else {
            left
        };
        let mut i: usize = 0;
        while i < n
            invariant
                i <= n,
                n <= buf@.len(),
                at + n <= len,
                len == self.data@.len(),
                buf@.len() == old(buf)@.len(),
                forall|j: int| 0 <= j < i ==> buf@[j] == self.data@[at + j],
                forall|j: int| i <= j < buf@.len() ==> buf@[j] == old(buf)@[j],
            decreases n - i,
        {
            buf[i] = self.data[at + i];
            i += 1;
        }
        self.pos = self.pos + n as u64;
        proof {
            assert(buf@.take(n as int) =~= bytes_at(self.data@, at as int, n as int));
            assert(buf@.skip(n as int) =~= old(buf)@.skip(n as int));
        }
        Ok(n)
    }
}

impl BufRead for Cursor {
    /// All that lies at and after the cursor.
    open spec fn peek(&self) -> Seq<u8> {
        bytes_at(
            self.bytes(),
            self.cursor() as int,
            available(self.bytes(), self.cursor() as int) as int,
        )
    }

    /// Never fails.
    fn fill_buf(&mut self) -> (r: Result<&[u8], OutOfRange>)
        ensures
            r is Ok,
    {
        let len = self.data.len();
        if self.pos >= len as u64 {
            let nothing: &[u8] = &[];
            proof {
                assert(nothing@ =~= self.peek());
            }
            return Ok(nothing);
        }
        let at = self.pos as usize;
        let shown = vstd::slice::slice_subrange(self.data.as_slice(), at, len);
        Ok(shown)
    }

    /// Any number of bytes that does not carry the cursor past the last
    /// offset: the cursor may come to lie after the end.
    open spec fn consumable(&self, amt: nat) -> bool {
        self.cursor() + amt <= u64::MAX
    }

    /// All that was asked for.
    open spec fn consumed(&self, amt: nat) -> nat {
        amt
    }

    fn consume(&mut self, amt: usize) {
        self.pos = self.pos + amt as u64;
    }
}

impl Write for Cursor {
    /// The vector grows as far as a `usize` counts.
    open spec fn room(&self) -> nat {
        if self.cursor() <= usize::MAX {
            (usize::MAX - self.cursor()) as nat
        } else {
            0
        }
    }

    /// Nothing: what is written is in the vector at once.
    open spec fn held_back(&self) -> nat {
        0
    }

    /// A write to memory does not fail, nor does a flush.
    open spec fn reliable(&self) -> bool {
        true
    }

    /// Never fails.
    fn write(&mut self, buf: &[u8]) -> (r: Result<usize, OutOfRange>)
        ensures
            r is Ok,
    {
        if self.pos > usize::MAX as u64 {
            proof {
                assert(buf@.take(0) =~= Seq::<u8>::empty());
            }
            return Ok(0);
        }
        let at = self.pos as usize;
        let room = usize::MAX - at;
        let n = if buf.len() <= room {
            buf.len()
        } else {
            room
        };
        if n == 0 {
            proof {
                assert(buf@.take(0) =~= Seq::<u8>::empty());
            }
            return Ok(0);
        }
        while self.data.len() < at
            invariant
                old(self).data@.len() <= self.data@.len(),
                self.data@.len() <= at || self.data@.len() == old(self).data@.len(),
                self.pos == old(self).pos,
                forall|j: int|
                    0 <= j < old(self).data@.len() ==> self.data@[j] == old(self).data@[j],
                forall|j: int|
                    old(self).data@.len() <= j < self.data@.len() ==> self.data@[j] == 0,
            decreases at - self.data@.len(),
        {
            self.data.push(0);
        }
        let ghost padded = self.data@;
        let mut i: usize = 0;
        while i < n
            invariant
                i <= n,
                n <= buf@.len(),
                at + n <= usize::MAX,
                at <= padded.len(),
                self.pos == old(self).pos,
                self.data@.len() == vstd::math::max(padded.len() as int, at + i),
                forall|j: int|
                    0 <= j < self.data@.len() ==> self.data@[j] == (if at <= j < at + i {
                        buf@[j - at]
                    } else {
                        padded[j]
                    }),
            decreases n - i,
        {
            if at + i < self.data.len() {
                self.data[at + i] = buf[i];
            } else {
                self.data.push(buf[i]);
            }
            i += 1;
        }
        self.pos = self.pos + n as u64;
        proof {
            assert(self.data@ =~= overlay(old(self).data@, at as int, buf@.take(n as int)));
        }
        Ok(n)
    }

    /// Never fails.
    fn flush(&mut self) -> (r: Result<(), OutOfRange>)
        ensures
            r is Ok,
    {
        Ok(())
    }
}

impl Seek for Cursor {
    /// The number of bytes that the stream holds.
    open spec fn size(&self) -> u64 {
        self.bytes().len() as u64
    }

    /// Every offset that a `u64` holds, inside the bytes or after them.
    open spec fn reaches(&self, target: int) -> bool {
        0 <= target <= u64::MAX
    }

    /// Fails where the offset asked for is negative or too large, and only
    /// there.
    fn seek(&mut self, from: SeekFrom) -> (r: Result<u64, OutOfRange>)
        ensures
            r is Ok <==> 0 <= seek_target(
                from,
                old(self).size() as int,
                old(self).cursor() as int,
            ) <= u64::MAX,
    {
        let target = match from {
            SeekFrom::Start(offset) => Some(offset),
            SeekFrom::End(offset) => (self.data.len() as u64).checked_add_signed(offset),
            SeekFrom::Current(offset) => self.pos.checked_add_signed(offset),
        };
        match target {
            Some(offset) => {
                self.pos = offset;
                Ok(offset)
            },
            None => Err(OutOfRange),
        }
    }

    /// Fails where the offset asked for is negative or too large, and only
    /// there.
    fn seek_relative(&mut self, offset: i64) -> (r: Result<(), OutOfRange>)
        ensures
            r is Ok <==> 0 <= old(self).cursor() + offset <= u64::MAX,
    {
        match self.pos.checked_add_signed(offset) {
            Some(target) => {
                self.pos = target;
                Ok(())
            },
            None => Err(OutOfRange),
        }
    }

    /// Never fails.
    fn stream_position(&mut self) -> (r: Result<u64, OutOfRange>)
        ensures
            r is Ok,
    {
        Ok(self.pos)
    }
}

} // verus!
