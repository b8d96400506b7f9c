//! The arithmetic of a window: where it starts and ends in the stream it
//! lies in, where its position is, how much may still be read or written
//! before its end, and where a seek leads.
//!
//! [`Window`] holds the three offsets and is shared by the reader and the
//! writer. It touches no stream: each of its operations takes plain numbers
//! and says exactly what becomes of the offsets, whatever the numbers are.
use vstd::prelude::*;
use crate::error::{map_seek_oob, seek_oob, Error};
use crate::stream::{seek_target, SeekFrom};

verus! {

/// The model of a window: three offsets into the stream it lies in.
pub struct WindowView {
    /// The offset at which the window begins.
    pub start: int,
    /// The offset at which it ends; the byte there is outside it.
    pub end: int,
    /// The offset of the window's position.
    pub pos: int,
}

impl WindowView {
    /// The offsets are in order and fit in a `u64`. The position is never
    /// before the start; it may lie after the end.
    pub open spec fn wf(self) -> bool {
        &&& 0 <= self.start <= self.end <= u64::MAX
        &&& self.start <= self.pos <= u64::MAX
    }

    /// The position as it is seen from outside, counted from the start.
    pub open spec fn position(self) -> int {
        self.pos - self.start
    }

    /// The length of the window.
    pub open spec fn length(self) -> int {
        self.end - self.start
    }

    /// How many bytes lie between the position and the end.
    pub open spec fn remaining(self) -> int {
        if self.pos < self.end {
            self.end - self.pos
        } else {
            0
        }
    }

    /// How many of `len` bytes fit before the end.
    pub open spec fn limit(self, len: int) -> int {
        vstd::math::min(len, self.remaining())
    }

    /// The offset in the underlying stream that a seek asks for.
    pub open spec fn target(self, from: SeekFrom) -> int {
        self.start + seek_target(from, self.length(), self.position())
    }

    /// Whether an offset in the underlying stream is within bounds as the
    /// target of a seek: it is not before the start, and both the offset and
    /// the way to it from the position can be written down, the one as a
    /// `u64` and the other as an `i64`.
    pub open spec fn within(self, target: int) -> bool {
        &&& self.start <= target <= u64::MAX
        &&& i64::MIN <= target - self.pos <= i64::MAX
    }

    /// Whether a seek is within bounds: its target is.
    pub open spec fn admits(self, from: SeekFrom) -> bool {
        self.within(self.target(from))
    }

    /// The window with its position at `target`.
    pub open spec fn moved_to(self, target: int) -> WindowView {
        WindowView { pos: target, ..self }
    }

    /// The window after `n` bytes were read or written at its position.
    pub open spec fn advanced(self, n: int) -> WindowView {
        WindowView { pos: self.pos + n, ..self }
    }

    /// The window after a bounded write that was reported to be `n` bytes
    /// long. The position moves by `n`. Where that carries it from before
    /// the end to past the end, which no stream that keeps to its contract
    /// brings about, the end is set to the new position, so that the window
    /// is full and does not end after what was written.
    pub open spec fn wrote(self, n: int) -> WindowView {
        WindowView {
            start: self.start,
            end: if self.pos < self.end < self.pos + n {
                self.pos + n
            } else {
                self.end
            },
            pos: self.pos + n,
        }
    }
}

/// A seek to an offset `k` inside the window, or to its end, puts the
/// position at `k`, whatever it was before, as long as the way there from
/// the old position can be written down as an `i64`.
pub proof fn seek_then_position(w: WindowView, k: u64)
    requires
        w.wf(),
        k <= w.length(),
        i64::MIN <= w.start + k - w.pos <= i64::MAX,
    ensures
        w.admits(SeekFrom::Start(k)),
        w.moved_to(w.target(SeekFrom::Start(k))).position() == k,
        w.moved_to(w.target(SeekFrom::Start(k))).wf(),
{
}

/// A seek whose target lies before the start of the window is out of
/// bounds, from wherever it is measured.
pub proof fn seek_before_start_refused(w: WindowView, from: SeekFrom)
    requires
        w.wf(),
        w.target(from) < w.start,
    ensures
        !w.admits(from),
{
}

/// A bounded write of more bytes than fit before the end, into a stream
/// that has room for those that fit, writes exactly those. The window is
/// full after it, and of whatever is written next nothing fits.
pub proof fn bounded_write_fills(w: WindowView, len: int, room: int, next: int)
    requires
        w.wf(),
        w.remaining() < len,
        w.remaining() <= room,
        0 <= next,
    ensures
        vstd::math::min(w.limit(len), room) == w.remaining(),
        w.wrote(w.remaining()) == w.advanced(w.remaining()),
        w.wrote(w.remaining()).remaining() == 0,
        w.wrote(w.remaining()).limit(next) == 0,
{
}

/// A write of `n` bytes that is not held to the window moves the position
/// by `n`, past the end where `n` is more than was left, and leaves the end
/// where it was: a seek from the end is measured as before.
pub proof fn write_beyond_keeps_end(w: WindowView, n: int, offset: i64)
    requires
        w.wf(),
        0 <= n,
    ensures
        w.advanced(n).pos == w.pos + n,
        w.advanced(n).end == w.end,
        n > w.remaining() ==> w.advanced(n).pos > w.end,
        w.advanced(n).target(SeekFrom::End(offset)) == w.target(SeekFrom::End(offset)),
{
}

/// A window's three offsets.
#[derive(Debug, Clone, Copy)]
pub struct Window {
    start: u64,
    end: u64,
    pos: u64,
}

impl View for Window {
    type V = WindowView;

    closed spec fn view(&self) -> WindowView {
        WindowView { start: self.start as int, end: self.end as int, pos: self.pos as int }
    }
}

impl Window {
    /// Holds of every window.
    #[verifier::type_invariant]
    pub open spec fn wf(self) -> bool {
        self@.wf()
    }

    /// A window of `length` bytes that starts at `pos`, with its position at
    /// its start.
    pub fn new(pos: u64, length: u64) -> (w: Window)
        requires
            pos + length <= u64::MAX,
        ensures
            w@ == (WindowView { start: pos as int, end: pos + length, pos: pos as int }),
    {
        Window { start: pos, end: pos + length, pos }
    }

    /// The offset at which the window begins.
    pub fn start(&self) -> (r: u64)
        ensures
            r == self@.start,
    {
        self.start
    }

    /// The offset at which the window ends.
    pub fn end(&self) -> (r: u64)
        ensures
            r == self@.end,
    {
        self.end
    }

    /// The position, counted from the start of the window.
    pub fn position(&self) -> (r: u64)
        ensures
            r == self@.position(),
    {
        proof {
            use_type_invariant(self);
        }
        self.pos - self.start
    }

    /// The position, counted from the beginning of the underlying stream.
    pub fn absolute(&self) -> (r: u64)
        ensures
            r == self@.pos,
    {
        self.pos
    }

    /// How many bytes lie between the position and the end.
    pub fn remaining(&self) -> (r: u64)
        ensures
            r == self@.remaining(),
    {
        if self.pos < self.end {
            self.end - self.pos
        } else {
            0
        }
    }

    /// How many of `len` bytes fit before the end.
    pub fn limit(&self, len: usize) -> (r: usize)
        ensures
            r == self@.limit(len as int),
    {
        let room = self.remaining();
        if len as u64 <= room {
            len
        } else {
            room as usize
        }
    }

    /// The front of `shown` that lies before the end.
    pub fn clamp<'a>(&self, shown: &'a [u8]) -> (r: &'a [u8])
        ensures
            r@ == shown@.take(self@.limit(shown@.len() as int)),
    {
        let n = self.limit(shown.len());
        vstd::slice::slice_subrange(shown, 0, n)
    }

    /// Moves the position forward by `n` bytes.
    pub fn advance(&mut self, n: usize)
        requires
            old(self)@.pos + n <= u64::MAX,
        ensures
            final(self)@ == old(self)@.advanced(n as int),
    {
        proof {
            use_type_invariant(&*self);
        }
        self.pos = self.pos + n as u64;
    }

    /// Takes note of a bounded write that was reported to be `written` bytes
    /// long, whatever that number is.
    pub fn record_write(&mut self, written: usize)
        requires
            old(self)@.pos + written <= u64::MAX,
        ensures
            final(self)@ == old(self)@.wrote(written as int),
    {
        proof {
            use_type_invariant(&*self);
        }
        let pos: u64 = self.pos + written as u64;
        if self.pos < self.end && pos > self.end {
            self.end = pos;
        }
        self.pos = pos;
    }

    /// Where a seek leads: its target in the underlying stream, and the way
    /// from the position to the target. A seek that is out of bounds is
    /// refused.
    pub fn resolve<E>(&self, from: SeekFrom) -> (r: Result<(u64, i64), Error<E>>)
        ensures
            match r {
                Ok((target, delta)) => {
                    &&& self@.admits(from)
                    &&& target == self@.target(from)
                    &&& delta == target - self@.pos
                },
                Err(e) => !self@.admits(from) && e is OutOfBounds,
            },
    {
        let target: u64 = match from {
            SeekFrom::Start(offset) => map_seek_oob(self.start.checked_add(offset))?,
            SeekFrom::End(offset) => map_seek_oob(self.end.checked_add_signed(offset))?,
            SeekFrom::Current(offset) => map_seek_oob(self.pos.checked_add_signed(offset))?,
        };
        if target < self.start {
            return seek_oob();
        }
        if target >= self.pos {
            let ahead: u64 = target - self.pos;
            if ahead > i64::MAX as u64 {
                return seek_oob();
            }
            Ok((target, ahead as i64))
        } else {
            let back: u64 = self.pos - target;
            if back > i64::MAX as u64 + 1 {
                return seek_oob();
            }
            if back == i64::MAX as u64 + 1 {
                Ok((target, i64::MIN))
            } else {
                Ok((target, -(back as i64)))
            }
        }
    }

    /// Puts the position at `target`.
    pub fn move_to(&mut self, target: u64)
        requires
            old(self)@.start <= target,
        ensures
            final(self)@ == old(self)@.moved_to(target as int),
    {
        proof {
            use_type_invariant(&*self);
        }
        self.pos = target;
    }
}

} // verus!
