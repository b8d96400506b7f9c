//! The window for writing.
use vstd::prelude::*;
use crate::error::{seek_oob, Error};
use crate::stream::{overlay, seek_target, Seek, SeekFrom, Stream, Write};
use crate::window::{Window, WindowView};

verus! {

/// What a stream holds from offset `start` on: nothing, if it ends before.
pub open spec fn bytes_from(all: Seq<u8>, start: int) -> Seq<u8> {
    if 0 <= start <= all.len() {
        all.skip(start)
    } else {
        Seq::empty()
    }
}

/// Writing into a stream at `pos` is, seen from `start` on, writing at
/// `pos - start`.
pub proof fn lemma_overlay_from(all: Seq<u8>, start: int, pos: int, data: Seq<u8>)
    requires
        0 <= start <= pos,
    ensures
        bytes_from(overlay(all, pos, data), start) == overlay(
            bytes_from(all, start),
            pos - start,
            data,
        ),
{
    assert(bytes_from(overlay(all, pos, data), start) =~= overlay(
        bytes_from(all, start),
        pos - start,
        data,
    ));
}

/// A window of a stream, for writing.
///
/// It presents the bytes `[start, end)` of the stream it wraps as a stream
/// that begins at offset zero. A write stops at the end of the window, unless
/// the writer was told to write beyond it.
#[derive(Debug)]
pub struct SubWriter<W> {
    inner: W,
    window: Window,
    write_beyond: bool,
}

impl<W> SubWriter<W> {
    /// The stream that the writer wraps.
    pub closed spec fn wrapped(&self) -> W {
        self.inner
    }

    /// The offsets of the window in the wrapped stream.
    pub closed spec fn window(&self) -> WindowView {
        self.window@
    }

    /// Whether writes go on past the end of the window.
    pub closed spec fn beyond(&self) -> bool {
        self.write_beyond
    }

    /// The wrapped stream, to look at.
    pub fn inner(&self) -> (r: &W)
        ensures
            *r == self.wrapped(),
    {
        &self.inner
    }

    /// Gives the wrapped stream back.
    pub fn into_inner(self) -> (r: W)
        ensures
            r == self.wrapped(),
    {
        self.inner
    }

    /// A writer for the `length` bytes of `inner` that start at `pos`, where
    /// `pos` is taken to be the cursor of `inner`. It does not write beyond
    /// its end.
    pub fn new_unchecked(inner: W, pos: u64, length: u64) -> (r: Self)
        requires
            pos + length <= u64::MAX,
        ensures
            r.wrapped() == inner,
            r.window() == (WindowView { start: pos as int, end: pos + length, pos: pos as int }),
            !r.beyond(),
    {
        SubWriter { inner, window: Window::new(pos, length), write_beyond: false }
    }

    /// Says whether writes go on past the end of the window.
    pub fn write_beyond(self, allow: bool) -> (r: Self)
        ensures
            r.wrapped() == self.wrapped(),
            r.window() == self.window(),
            r.beyond() == allow,
    {
        let mut writer = self;
        writer.write_beyond = allow;
        writer
    }

    /// The writer's position, counted from the beginning of the wrapped
    /// stream.
    pub fn inner_stream_position(&self) -> (r: u64)
        ensures
            r == self.window().pos,
    {
        self.window.absolute()
    }
}

impl<W: Clone> Clone for SubWriter<W> {
    /// A writer with the same window around a clone of the wrapped stream.
    fn clone(&self) -> (r: Self)
        ensures
            r.window() == self.window(),
            r.beyond() == self.beyond(),
            cloned(self.wrapped(), r.wrapped()),
    {
        SubWriter {
            inner: self.inner.clone(),
            window: self.window,
            write_beyond: self.write_beyond,
        }
    }
}

impl<W: Stream> Stream for SubWriter<W> {
    type Error = Error<W::Error>;

    /// The wrapped stream is sound and its cursor is where the writer's
    /// position says.
    open spec fn inv(&self) -> bool {
        &&& self.window().wf()
        &&& self.wrapped().inv()
        &&& self.wrapped().cursor() == self.window().pos
    }

    /// What the wrapped stream holds from the start of the window on.
    open spec fn bytes(&self) -> Seq<u8> {
        bytes_from(self.wrapped().bytes(), self.window().start)
    }

    open spec fn cursor(&self) -> u64 {
        self.window().position() as u64
    }
}

impl<W: Write> Write for SubWriter<W> {
    /// As much as the wrapped stream takes, and no more than fits before the
    /// end of the window unless the writer writes beyond it.
    open spec fn room(&self) -> nat {
        if self.beyond() {
            self.wrapped().room()
        } else {
            vstd::math::min(self.window().remaining(), self.wrapped().room() as int) as nat
        }
    }

    /// What the wrapped stream holds back: the writer holds back nothing
    /// itself.
    open spec fn held_back(&self) -> nat {
        self.wrapped().held_back()
    }

    /// A write or a flush cannot fail where those of the wrapped stream
    /// cannot.
    open spec fn reliable(&self) -> bool {
        self.wrapped().reliable()
    }

    /// Writes at the position. A writer that does not write beyond its end
    /// hands the wrapped stream no more than fits before the end, and writes
    /// nothing, without touching the wrapped stream, once the position has
    /// reached the end. One that writes beyond hands it all of `buf`. Either
    /// way the position moves by what the wrapped stream took, and the end
    /// stays.
    ///
    /// The wrapped stream takes no more than it is handed. What would become
    /// of the window if it claimed otherwise is stated where the bounded
    /// write is taken note of, at [`Window::record_write`].
    fn write(&mut self, buf: &[u8]) -> (r: Result<usize, Self::Error>)
        ensures
            final(self).beyond() == old(self).beyond(),
            match r {
                Ok(n) => {
                    &&& n == vstd::math::min(
                        if old(self).beyond() {
                            buf@.len() as int
                        } else {
                            old(self).window().limit(buf@.len() as int)
                        },
                        old(self).wrapped().room() as int,
                    )
                    &&& final(self).window() == old(self).window().advanced(n as int)
                    &&& final(self).wrapped().bytes() == overlay(
                        old(self).wrapped().bytes(),
                        old(self).window().pos,
                        buf@.take(n as int),
                    )
                },
                Err(e) => {
                    &&& e is Inner
                    &&& final(self).window() == old(self).window()
                    &&& final(self).wrapped().bytes() == old(self).wrapped().bytes()
                },
            },
            !old(self).beyond() && old(self).window().remaining() == 0 ==> r is Ok
                && final(self).wrapped() == old(self).wrapped(),
    {
        proof {
            use_type_invariant(&self.window);
        }
        if self.write_beyond {
            match self.inner.write(buf) {
                Ok(n) => {
                    self.window.advance(n);
                    proof {
                        lemma_overlay_from(
                            old(self).wrapped().bytes(),
                            old(self).window().start,
                            old(self).window().pos,
                            buf@.take(n as int),
                        );
                    }
                    Ok(n)
                },
                Err(e) => Err(Error::Inner(e)),
            }
        } else {
            if self.window.remaining() == 0 {
                return Ok(0);
            }
            let to_write = self.window.limit(buf.len());
            match self.inner.write(&buf[0..to_write]) {
                Ok(n) => {
                    self.window.record_write(n);
                    proof {
                        assert(buf@.subrange(0, to_write as int).take(n as int) =~= buf@.take(
                            n as int,
                        ));
                        lemma_overlay_from(
                            old(self).wrapped().bytes(),
                            old(self).window().start,
                            old(self).window().pos,
                            buf@.take(n as int),
                        );
                    }
                    Ok(n)
                },
                Err(e) => Err(Error::Inner(e)),
            }
        }
    }

    /// Flushes the wrapped stream, and nothing else.
    fn flush(&mut self) -> (r: Result<(), Self::Error>)
        ensures
            final(self).beyond() == old(self).beyond(),
            final(self).window() == old(self).window(),
            final(self).wrapped().bytes() == old(self).wrapped().bytes(),
            r matches Err(e) ==> e is Inner,
    {
        match self.inner.flush() {
            Ok(()) => Ok(()),
            Err(e) => Err(Error::Inner(e)),
        }
    }
}

impl<W: Seek> SubWriter<W> {
    /// A writer for the `length` bytes of `inner` that start at its cursor.
    /// It seeks in `inner` to learn where the cursor is.
    pub fn new_from(inner: W, length: u64) -> (r: Result<Self, Error<W::Error>>)
        requires
            inner.inv(),
        ensures
            match r {
                Ok(writer) => {
                    &&& writer.inv()
                    &&& !writer.beyond()
                    &&& writer.wrapped().bytes() == inner.bytes()
                    &&& writer.window() == (WindowView {
                        start: inner.cursor() as int,
                        end: inner.cursor() + length,
                        pos: inner.cursor() as int,
                    })
                },
                Err(Error::OutOfBounds) => inner.cursor() + length > u64::MAX,
                Err(Error::Inner(_)) => true,
            },
            inner.cursor() + length > u64::MAX ==> r is Err,
            inner.reaches(inner.cursor() as int) && inner.cursor() + length <= u64::MAX ==> r is Ok,
    {
        Self::new_seek(inner, SeekFrom::Current(0), length)
    }

    /// A writer for the `length` bytes of `inner` that start where `start`
    /// leads. It seeks there in `inner`; where the seek fails, so does this,
    /// and a window that would end past the last offset is out of bounds.
    pub fn new_seek(inner: W, start: SeekFrom, length: u64) -> (r: Result<Self, Error<W::Error>>)
        requires
            inner.inv(),
        ensures
            match r {
                Ok(writer) => {
                    &&& writer.inv()
                    &&& !writer.beyond()
                    &&& writer.wrapped().bytes() == inner.bytes()
                    &&& writer.window() == (WindowView {
                        start: seek_target(start, inner.size() as int, inner.cursor() as int),
                        end: seek_target(start, inner.size() as int, inner.cursor() as int)
                            + length,
                        pos: seek_target(start, inner.size() as int, inner.cursor() as int),
                    })
                },
                Err(Error::OutOfBounds) => seek_target(
                    start,
                    inner.size() as int,
                    inner.cursor() as int,
                ) + length > u64::MAX,
                Err(Error::Inner(_)) => true,
            },
            seek_target(start, inner.size() as int, inner.cursor() as int) + length > u64::MAX
                ==> r is Err,
            inner.reaches(seek_target(start, inner.size() as int, inner.cursor() as int))
                && seek_target(start, inner.size() as int, inner.cursor() as int) + length
                <= u64::MAX ==> r is Ok,
    {
        let mut inner = inner;
        match inner.seek(start) {
            Ok(pos) => {
                if length > u64::MAX - pos {
                    return seek_oob();
                }
                Ok(Self::new_unchecked(inner, pos, length))
            },
            Err(e) => Err(Error::Inner(e)),
        }
    }
}

impl<W: Seek> Seek for SubWriter<W> {
    /// The length that the window has.
    open spec fn size(&self) -> u64 {
        self.window().length() as u64
    }

    /// An offset that is within the bounds of the window and that the
    /// wrapped stream reaches. The offset is counted from the start of the
    /// window; the wrapped stream is asked for it as it counts.
    open spec fn reaches(&self, target: int) -> bool {
        &&& self.window().within(self.window().start + target)
        &&& self.wrapped().reaches(self.window().start + target)
    }

    /// Moves the position, and the cursor of the wrapped stream by as much.
    /// Offsets are counted from the start of the window, and a seek from the
    /// end from the end of the window. A seek to before the start, or one
    /// whose arithmetic overflows, is refused and changes nothing.
    fn seek(&mut self, from: SeekFrom) -> (r: Result<u64, Self::Error>)
        ensures
            final(self).beyond() == old(self).beyond(),
            final(self).wrapped().bytes() == old(self).wrapped().bytes(),
            (r matches Err(Error::OutOfBounds)) <==> !old(self).window().admits(from),
            old(self).window().target(from) < old(self).window().start ==> (r matches Err(
                Error::OutOfBounds,
            )) && *final(self) == *old(self),
            old(self).window().admits(from) && old(self).wrapped().reaches(
                old(self).window().target(from),
            ) ==> r is Ok,
            match r {
                Ok(offset) => {
                    &&& final(self).window() == old(self).window().moved_to(
                        old(self).window().target(from),
                    )
                    &&& offset == final(self).window().position()
                },
                Err(Error::OutOfBounds) => *final(self) == *old(self),
                Err(Error::Inner(_)) => final(self).window() == old(self).window(),
            },
    {
        let (target, delta) = self.window.resolve::<W::Error>(from)?;
        match self.inner.seek_relative(delta) {
            Ok(()) => {
                self.window.move_to(target);
                Ok(self.window.position())
            },
            Err(e) => Err(Error::Inner(e)),
        }
    }

    /// Moves the position by `offset` bytes, forward or back.
    fn seek_relative(&mut self, offset: i64) -> (r: Result<(), Self::Error>)
        ensures
            final(self).beyond() == old(self).beyond(),
            final(self).wrapped().bytes() == old(self).wrapped().bytes(),
            (r matches Err(Error::OutOfBounds)) <==> !old(self).window().admits(
                SeekFrom::Current(offset),
            ),
            match r {
                Ok(_) => final(self).window() == old(self).window().advanced(offset as int),
                Err(Error::OutOfBounds) => *final(self) == *old(self),
                Err(Error::Inner(_)) => final(self).window() == old(self).window(),
            },
    {
        match self.seek(SeekFrom::Current(offset)) {
            Ok(_) => Ok(()),
            Err(e) => Err(e),
        }
    }

    /// The position, counted from the start of the window. It asks nothing
    /// of the wrapped stream and does not fail.
    fn stream_position(&mut self) -> (r: Result<u64, Self::Error>)
        ensures
            *final(self) == *old(self),
            r is Ok,
    {
        Ok(self.window.position())
    }
}

} // verus!
