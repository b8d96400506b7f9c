//! What a byte stream is: a sequence of bytes with a cursor in it, and the
//! operations that read, peek, write and move the cursor.
//!
//! Every stream has a ghost model. `bytes` is what the stream holds, indexed
//! by offset from its beginning; `cursor` is the offset at which the next
//! read or write starts. The contracts below say what each operation does to
//! the model, so that code which is generic over a stream can be proved
//! against them. An operation that fails leaves the model as it was.
//!
//! Whether an operation can fail is for the stream to say, by the functions
//! `unfailing`, `reliable` and `reaches`; where it says that one cannot, the
//! contract of the operation promises success.
//!
//! A stream states its model by defining the functions that describe it.
//! One that defines none of them, as a stream written outside the verifier
//! does, has no model: its `inv` does not hold, so no contract speaks of it
//! and no verified code can call it.
use vstd::prelude::*;

verus! {

/// Where a seek is measured from.
#[derive(Debug, Clone, Copy, PartialEq, Eq)]
pub enum SeekFrom {
    /// An offset from the beginning of the stream.
    Start(u64),
    /// An offset from the end of the stream.
    End(i64),
    /// An offset from the cursor.
    Current(i64),
}

/// The offset that a seek asks for, in a stream of the given size with the
/// cursor at the given offset. It may lie outside what a `u64` holds.
pub open spec fn seek_target(from: SeekFrom, size: int, cursor: int) -> int {
    match from {
        SeekFrom::Start(offset) => offset as int,
        SeekFrom::End(offset) => size + offset,
        SeekFrom::Current(offset) => cursor + offset,
    }
}

/// How many bytes lie at and after the cursor.
pub open spec fn available(bytes: Seq<u8>, cursor: int) -> nat {
    if cursor < bytes.len() {
        (bytes.len() - cursor) as nat
    } else {
        0
    }
}

/// The `n` bytes that lie at offset `at` and after it.
pub open spec fn bytes_at(bytes: Seq<u8>, at: int, n: int) -> Seq<u8> {
    if n > 0 {
        bytes.subrange(at, at + n)
    } else {
        Seq::empty()
    }
}

/// The bytes of a stream after `data` was written at offset `at`. The data
/// replaces what was there and lengthens the stream where it reaches past the
/// end; a gap between the old end and `at` is filled with zeros. Writing
/// nothing changes nothing.
pub open spec fn overlay(bytes: Seq<u8>, at: int, data: Seq<u8>) -> Seq<u8> {
    if data.len() == 0 {
        bytes
    } else {
        Seq::new(
            vstd::math::max(bytes.len() as int, at + data.len()) as nat,
            |i: int|
                if at <= i < at + data.len() {
                    data[i - at]
                } else if i < bytes.len() {
                    bytes[i]
                } else {
                    0u8
                },
        )
    }
}

/// A stream of bytes with a cursor.
pub trait Stream {
    /// How an operation on the stream fails.
    type Error;

    /// Whether the stream is in a state that its operations accept, and
    /// keeps to the contracts of the operations it has.
    open spec fn inv(&self) -> bool {
        false
    }

    /// The bytes that the stream holds, by offset from its beginning.
    open spec fn bytes(&self) -> Seq<u8> {
        Seq::empty()
    }

    /// The offset at which the next read or write starts.
    open spec fn cursor(&self) -> u64 {
        0
    }
}

/// A stream that can be read.
pub trait Read: Stream {
    /// How many bytes the stream hands over at once in this state. A stream
    /// in memory hands over all that is left; another may have fewer at
    /// hand.
    open spec fn ready(&self) -> nat {
        0
    }

    /// Whether a read of the stream cannot fail, in this state and in those
    /// that reads lead to from it. A stream says so of itself only where its
    /// `read` is proved to keep the word; one that says nothing promises
    /// nothing.
    open spec fn unfailing(&self) -> bool {
        false
    }

    /// Copies the bytes at the cursor into the front of `buf` and moves the
    /// cursor past them. It copies as many bytes as `buf` takes, or all that
    /// the stream hands over if those are fewer, and returns their number.
    /// What it hands over are bytes that the stream holds, and at least one
    /// of them where there is one and `buf` takes it; the rest of `buf` stays
    /// as it was. Whether it can fail is for the stream to say.
    fn read(&mut self, buf: &mut [u8]) -> (r: Result<usize, Self::Error>)
        requires
            old(self).inv(),
        ensures
            final(self).inv(),
            final(self).bytes() == old(self).bytes(),
            final(buf)@.len() == old(buf)@.len(),
            old(self).unfailing() ==> r is Ok && final(self).unfailing(),
            match r {
                Ok(n) => {
                    &&& n == vstd::math::min(old(buf)@.len() as int, old(self).ready() as int)
                    &&& n <= available(old(self).bytes(), old(self).cursor() as int)
                    &&& n == 0 ==> old(buf)@.len() == 0 || available(
                        old(self).bytes(),
                        old(self).cursor() as int,
                    ) == 0
                    &&& final(self).cursor() == old(self).cursor() + n
                    &&& final(buf)@.take(n as int) == bytes_at(
                        old(self).bytes(),
                        old(self).cursor() as int,
                        n as int,
                    )
                    &&& final(buf)@.skip(n as int) == old(buf)@.skip(n as int)
                },
                Err(_) => final(self).cursor() == old(self).cursor(),
            },
    ;

    /// Reads all that is left and appends it to `out`; returns how many
    /// bytes that was. It reads until a read hands over nothing, and fails
    /// only where one of those reads fails: on a stream whose reads cannot
    /// fail it succeeds. Where a read fails on the way, what was read before
    /// it stays appended and the cursor stays behind it.
    fn read_to_end(&mut self, out: &mut Vec<u8>) -> (r: Result<usize, Self::Error>)
        requires
            old(self).inv(),
        ensures
            final(self).inv(),
            final(self).bytes() == old(self).bytes(),
            old(self).unfailing() ==> r is Ok && final(self).unfailing(),
            final(self).cursor() - old(self).cursor() == final(out)@.len() - old(out)@.len(),
            final(out)@ == old(out)@ + bytes_at(
                old(self).bytes(),
                old(self).cursor() as int,
                final(out)@.len() - old(out)@.len(),
            ),
            r matches Ok(n) ==> {
                &&& n == available(old(self).bytes(), old(self).cursor() as int)
                &&& n == final(out)@.len() - old(out)@.len()
            },
    {
        let before = out.len();
        let mut chunk = zeros(64);
        let ghost bytes = self.bytes();
        let ghost from = self.cursor() as int;
        let ghost had = out@;
        proof {
            assert(out@ =~= had + bytes_at(bytes, from, 0));
        }
        loop
            invariant
                chunk@.len() == 64,
                self.inv(),
                bytes == old(self).bytes(),
                from == old(self).cursor(),
                had == old(out)@,
                old(self).unfailing() ==> self.unfailing(),
                self.bytes() == bytes,
                before == had.len(),
                from <= self.cursor(),
                self.cursor() - from <= available(bytes, from),
                self.cursor() - from == out@.len() - had.len(),
                out@ == had + bytes_at(bytes, from, out@.len() - had.len()),
            decreases available(bytes, self.cursor() as int),
        {
            let ghost at = self.cursor() as int;
            let n = match self.read(chunk.as_mut_slice()) {
                Ok(n) => n,
                Err(e) => {
                    return Err(e);
                },
            };
            if n == 0 {
                return Ok(out.len() - before);
            }
            append_front(out, &chunk, n);
            proof {
                assert(bytes_at(bytes, from, at - from) + bytes_at(bytes, at, n as int)
                    =~= bytes_at(bytes, from, at - from + n));
                assert(out@ =~= had + bytes_at(bytes, from, out@.len() - had.len()));
            }
        }
    }
}

/// A buffer of `n` zeros, to read into.
pub(crate) fn zeros(n: usize) -> (r: Vec<u8>)
    ensures
        r@ == Seq::new(n as nat, |i: int| 0u8),
{
    let mut r: Vec<u8> = Vec::new();
    while r.len() < n
        invariant
            r@.len() <= n,
            forall|i: int| 0 <= i < r@.len() ==> r@[i] == 0,
        decreases n - r@.len(),
    {
        r.push(0);
    }
    proof {
        assert(r@ =~= Seq::new(n as nat, |i: int| 0u8));
    }
    r
}

/// Appends the first `n` bytes of `chunk` to `out`.
pub(crate) fn append_front(out: &mut Vec<u8>, chunk: &Vec<u8>, n: usize)
    requires
        n <= chunk@.len(),
    ensures
        final(out)@ == old(out)@ + chunk@.take(n as int),
{
    let mut i: usize = 0;
    proof {
        assert(out@ =~= old(out)@ + chunk@.take(0));
    }
    while i < n
        invariant
            i <= n <= chunk@.len(),
            out@ == old(out)@ + chunk@.take(i as int),
        decreases n - i,
    {
        out.push(chunk[i]);
        i += 1;
        proof {
            assert(chunk@.take(i as int) =~= chunk@.take(i - 1).push(chunk@[i - 1]));
            assert(out@ =~= old(out)@ + chunk@.take(i as int));
        }
    }
}

/// A readable stream that lets its bytes be looked at before they are taken.
pub trait BufRead: Read {
    /// The bytes that a peek shows in this state.
    open spec fn peek(&self) -> Seq<u8> {
        Seq::empty()
    }

    /// Whether the stream lets `amt` bytes be consumed in this state. What a
    /// peek has shown may be consumed, in whole or in part; a stream may let
    /// more be asked of it.
    open spec fn consumable(&self, amt: nat) -> bool {
        false
    }

    /// How far a consume of `amt` bytes moves the cursor in this state: by
    /// `amt` where those bytes were shown, and never by more than `amt`.
    open spec fn consumed(&self, amt: nat) -> nat {
        0
    }

    /// Shows the bytes at the cursor without moving it: bytes that the
    /// stream holds there, and at least one of them unless the cursor is at
    /// the end. What it shows may then be consumed, in whole or in part. It
    /// does not fail on a stream whose reads cannot fail.
    fn fill_buf(&mut self) -> (r: Result<&[u8], Self::Error>)
        requires
            old(self).inv(),
        ensures
            final(self).inv(),
            final(self).bytes() == old(self).bytes(),
            final(self).cursor() == old(self).cursor(),
            old(self).unfailing() ==> r is Ok && final(self).unfailing(),
            match r {
                Ok(shown) => {
                    &&& shown@ == old(self).peek()
                    &&& final(self).peek() == old(self).peek()
                    &&& forall|k: nat|
                        0 < k <= shown@.len() ==> #[trigger] final(self).consumable(k)
                            && final(self).consumed(k) == k
                    &&& shown@.len() <= available(old(self).bytes(), old(self).cursor() as int)
                    &&& shown@.len() == 0 ==> available(
                        old(self).bytes(),
                        old(self).cursor() as int,
                    ) == 0
                    &&& shown@ == bytes_at(
                        old(self).bytes(),
                        old(self).cursor() as int,
                        shown@.len() as int,
                    )
                },
                Err(_) => true,
            },
    ;

    /// Moves the cursor past bytes that were peeked before: `amt` of them, or
    /// as many as the stream says it takes of `amt`.
    fn consume(&mut self, amt: usize)
        requires
            old(self).inv(),
            old(self).consumable(amt as nat),
        ensures
            final(self).inv(),
            final(self).bytes() == old(self).bytes(),
            final(self).cursor() == old(self).cursor() + old(self).consumed(amt as nat),
            old(self).consumed(amt as nat) <= amt,
            old(self).unfailing() ==> final(self).unfailing(),
    ;
}

/// A stream that can be written.
pub trait Write: Stream {
    /// How many bytes the stream takes at its cursor in this state.
    open spec fn room(&self) -> nat {
        0
    }

    /// How many written bytes the stream holds back in this state, on their
    /// way to where they go.
    open spec fn held_back(&self) -> nat {
        0
    }

    /// Whether a write or a flush of the stream cannot fail, in this state
    /// and in those that writes and flushes lead to from it. A stream says so
    /// of itself only where its `write` and `flush` are proved to keep the
    /// word; one that says nothing promises nothing.
    open spec fn reliable(&self) -> bool {
        false
    }

    /// Writes the front of `buf` at the cursor and moves the cursor past what
    /// was written. It writes as many bytes as the stream has room for, or
    /// all of `buf` if that is shorter, and returns their number. Whether it
    /// can fail is for the stream to say.
    fn write(&mut self, buf: &[u8]) -> (r: Result<usize, Self::Error>)
        requires
            old(self).inv(),
        ensures
            final(self).inv(),
            old(self).reliable() ==> r is Ok && final(self).reliable(),
            match r {
                Ok(n) => {
                    &&& n == vstd::math::min(buf@.len() as int, old(self).room() as int)
                    &&& final(self).cursor() == old(self).cursor() + n
                    &&& final(self).bytes() == overlay(
                        old(self).bytes(),
                        old(self).cursor() as int,
                        buf@.take(n as int),
                    )
                },
                Err(_) => {
                    &&& final(self).cursor() == old(self).cursor()
                    &&& final(self).bytes() == old(self).bytes()
                },
            },
    ;

    /// Hands on what the stream holds back. What the stream holds and where
    /// its cursor is do not change.
    fn flush(&mut self) -> (r: Result<(), Self::Error>)
        requires
            old(self).inv(),
        ensures
            final(self).inv(),
            final(self).bytes() == old(self).bytes(),
            final(self).cursor() == old(self).cursor(),
            final(self).room() == old(self).room(),
            r is Ok ==> final(self).held_back() == 0,
            old(self).reliable() ==> r is Ok && final(self).reliable(),
    ;
}

/// A stream whose cursor can be moved.
pub trait Seek: Stream {
    /// The offset that a seek from the end is measured from.
    open spec fn size(&self) -> u64 {
        0
    }

    /// Whether a seek to the offset `target` succeeds in this state. A
    /// stream says so of itself only where its seeks are proved to keep the
    /// word; one that says nothing promises nothing.
    open spec fn reaches(&self, target: int) -> bool {
        false
    }

    /// Moves the cursor to the offset that `from` asks for and returns it.
    /// It succeeds where the stream says that it reaches the offset.
    fn seek(&mut self, from: SeekFrom) -> (r: Result<u64, Self::Error>)
        requires
            old(self).inv(),
        ensures
            final(self).inv(),
            final(self).bytes() == old(self).bytes(),
            final(self).size() == old(self).size(),
            old(self).reaches(seek_target(from, old(self).size() as int, old(self).cursor() as int))
                ==> r is Ok,
            match r {
                Ok(offset) => {
                    &&& offset == seek_target(
                        from,
                        old(self).size() as int,
                        old(self).cursor() as int,
                    )
                    &&& final(self).cursor() == offset
                },
                Err(_) => final(self).cursor() == old(self).cursor(),
            },
    ;

    /// Moves the cursor by `offset` bytes, forward or back. It succeeds where
    /// the stream says that it reaches the offset that this leads to.
    fn seek_relative(&mut self, offset: i64) -> (r: Result<(), Self::Error>)
        requires
            old(self).inv(),
        ensures
            final(self).inv(),
            final(self).bytes() == old(self).bytes(),
            final(self).size() == old(self).size(),
            old(self).reaches(old(self).cursor() + offset) ==> r is Ok,
            match r {
                Ok(_) => final(self).cursor() == old(self).cursor() + offset,
                Err(_) => final(self).cursor() == old(self).cursor(),
            },
    ;

    /// The offset of the cursor. It is had where the stream says that it
    /// reaches that offset.
    fn stream_position(&mut self) -> (r: Result<u64, Self::Error>)
        requires
            old(self).inv(),
        ensures
            final(self).inv(),
            final(self).bytes() == old(self).bytes(),
            final(self).size() == old(self).size(),
            final(self).cursor() == old(self).cursor(),
            old(self).reaches(old(self).cursor() as int) ==> r is Ok,
            r matches Ok(offset) ==> offset == old(self).cursor(),
    ;
}

} // verus!
