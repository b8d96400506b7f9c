//! The window for reading.
use vstd::prelude::*;
use crate::error::{seek_oob, Error};
use crate::stream::{
    append_front, available, bytes_at, seek_target, zeros, BufRead, Read, Seek, SeekFrom, Stream,
};
use crate::window::{Window, WindowView};

verus! {

/// What a stream holds at the offsets `[start, end)`: less than `end - start`
/// bytes where the stream ends before `end`, and nothing where it ends before
/// `start`.
pub open spec fn bytes_between(all: Seq<u8>, start: int, end: int) -> Seq<u8> {
    if 0 <= start <= end && start <= all.len() {
        all.subrange(start, vstd::math::min(end, all.len() as int))
    } else {
        Seq::empty()
    }
}

/// In a window that is not empty and lies inside the stream, a seek to one
/// byte before the end followed by a read of one byte reads one byte, and it
/// is the last byte of the window. Here `all` is what the stream holds and
/// `ready` what it hands over after the seek: at least one byte, as it holds
/// one there. The way to the last byte from the old position must be one
/// that an `i64` can hold.
pub proof fn last_byte_is_read(all: Seq<u8>, w: WindowView, ready: nat)
    requires
        w.wf(),
        w.start < w.end <= all.len(),
        i64::MIN <= w.end - 1 - w.pos <= i64::MAX,
        ready >= 1,
    ensures
        w.admits(SeekFrom::End(-1i64)),
        ({
            let sought = w.moved_to(w.target(SeekFrom::End(-1i64)));
            &&& sought.position() == w.length() - 1
            &&& vstd::math::min(sought.limit(1), ready as int) == 1
            &&& bytes_at(all, sought.pos, 1) == seq![bytes_between(all, w.start, w.end).last()]
            &&& sought.advanced(1).remaining() == 0
        }),
{
    let sought = w.moved_to(w.target(SeekFrom::End(-1i64)));
    assert(bytes_at(all, sought.pos, 1) =~= seq![bytes_between(all, w.start, w.end).last()]);
}

/// A window of a stream, for reading.
///
/// It presents the bytes `[start, end)` of the stream it wraps as a stream
/// that begins at offset zero and ends where the window ends.
#[derive(Debug)]
pub struct SubReader<R> {
    inner: R,
    window: Window,
}

impl<R> SubReader<R> {
    /// The stream that the reader wraps.
    pub closed spec fn wrapped(&self) -> R {
        self.inner
    }

    /// The offsets of the window in the wrapped stream.
    pub closed spec fn window(&self) -> WindowView {
        self.window@
    }

    /// The wrapped stream, to look at.
    pub fn inner(&self) -> (r: &R)
        ensures
            *r == self.wrapped(),
    {
        &self.inner
    }

    /// Gives the wrapped stream back.
    pub fn into_inner(self) -> (r: R)
        ensures
            r == self.wrapped(),
    {
        self.inner
    }

    /// The reader's position, counted from the beginning of the wrapped
    /// stream.
    pub fn inner_stream_position(&self) -> (r: u64)
        ensures
            r == self.window().pos,
    {
        self.window.absolute()
    }

    /// A reader for the `length` bytes of `inner` that start at `pos`, where
    /// `pos` is taken to be the cursor of `inner`.
    pub fn new_unchecked(inner: R, pos: u64, length: u64) -> (r: Self)
        requires
            pos + length <= u64::MAX,
        ensures
            r.wrapped() == inner,
            r.window() == (WindowView { start: pos as int, end: pos + length, pos: pos as int }),
    {
        SubReader { inner, window: Window::new(pos, length) }
    }
}

impl<R: Clone> Clone for SubReader<R> {
    /// A reader with the same window around a clone of the wrapped stream.
    fn clone(&self) -> (r: Self)
        ensures
            r.window() == self.window(),
            cloned(self.wrapped(), r.wrapped()),
    {
        SubReader { inner: self.inner.clone(), window: self.window }
    }
}

impl<R: Seek> SubReader<R> {
    /// A reader for the `length` bytes of `inner` that start at its cursor.
    /// It seeks in `inner` to learn where the cursor is.
    pub fn new_from(inner: R, length: u64) -> (r: Result<Self, Error<R::Error>>)
        requires
            inner.inv(),
        ensures
            match r {
                Ok(reader) => {
                    &&& reader.inv()
                    &&& reader.wrapped().bytes() == inner.bytes()
                    &&& reader.window() == (WindowView {
                        start: inner.cursor() as int,
                        end: inner.cursor() + length,
                        pos: inner.cursor() as int,
                    })
                },
                Err(Error::OutOfBounds) => inner.cursor() + length > u64::MAX,
                Err(Error::Inner(_)) => true,
            },
            inner.cursor() + length > u64::MAX ==> r is Err,
            inner.reaches(inner.cursor() as int) && inner.cursor() + length <= u64::MAX ==> r is Ok,
    {
        Self::new_seek(inner, SeekFrom::Current(0), length)
    }

    /// A reader for the `length` bytes of `inner` that start where `start`
    /// leads. It seeks there in `inner`; where the seek fails, so does this,
    /// and a window that would end past the last offset is out of bounds.
    pub fn new_seek(inner: R, start: SeekFrom, length: u64) -> (r: Result<Self, Error<R::Error>>)
        requires
            inner.inv(),
        ensures
            match r {
                Ok(reader) => {
                    &&& reader.inv()
                    &&& reader.wrapped().bytes() == inner.bytes()
                    &&& reader.window() == (WindowView {
                        start: seek_target(start, inner.size() as int, inner.cursor() as int),
                        end: seek_target(start, inner.size() as int, inner.cursor() as int)
                            + length,
                        pos: seek_target(start, inner.size() as int, inner.cursor() as int),
                    })
                },
                Err(Error::OutOfBounds) => seek_target(
                    start,
                    inner.size() as int,
                    inner.cursor() as int,
                ) + length > u64::MAX,
                Err(Error::Inner(_)) => true,
            },
            seek_target(start, inner.size() as int, inner.cursor() as int) + length > u64::MAX
                ==> r is Err,
            inner.reaches(seek_target(start, inner.size() as int, inner.cursor() as int))
                && seek_target(start, inner.size() as int, inner.cursor() as int) + length
                <= u64::MAX ==> r is Ok,
    {
        let mut inner = inner;
        match inner.seek(start) {
            Ok(pos) => {
                if length > u64::MAX - pos {
                    return seek_oob();
                }
                Ok(Self::new_unchecked(inner, pos, length))
            },
            Err(e) => Err(Error::Inner(e)),
        }
    }
}

impl<R: Stream> Stream for SubReader<R> {
    type Error = Error<R::Error>;

    /// The wrapped stream is sound and its cursor is where the reader's
    /// position says.
    open spec fn inv(&self) -> bool {
        &&& self.window().wf()
        &&& self.wrapped().inv()
        &&& self.wrapped().cursor() == self.window().pos
    }

    /// What the wrapped stream holds inside the window.
    open spec fn bytes(&self) -> Seq<u8> {
        bytes_between(self.wrapped().bytes(), self.window().start, self.window().end)
    }

    open spec fn cursor(&self) -> u64 {
        self.window().position() as u64
    }
}

impl<R: Read> Read for SubReader<R> {
    /// What the wrapped stream hands over, as far as it lies before the end
    /// of the window.
    open spec fn ready(&self) -> nat {
        self.window().limit(self.wrapped().ready() as int) as nat
    }

    /// A read cannot fail once the position has reached the end, as the
    /// wrapped stream is not asked then, nor where the wrapped stream's reads
    /// cannot fail.
    open spec fn unfailing(&self) -> bool {
        self.window().remaining() == 0 || self.wrapped().unfailing()
    }

    /// Reads at the position. The wrapped stream is asked for no more than
    /// lies before the end of the window, so what is read comes from inside
    /// the window and the rest of `buf` stays as it was. Once the position
    /// has reached the end, nothing is read and the wrapped stream is not
    /// touched.
    fn read(&mut self, buf: &mut [u8]) -> (r: Result<usize, Self::Error>)
        ensures
            final(self).wrapped().bytes() == old(self).wrapped().bytes(),
            final(buf)@.skip(old(self).window().limit(old(buf)@.len() as int)) == old(buf)@.skip(
                old(self).window().limit(old(buf)@.len() as int),
            ),
            match r {
                Ok(n) => {
                    &&& n == vstd::math::min(
                        old(self).window().limit(old(buf)@.len() as int),
                        old(self).wrapped().ready() as int,
                    )
                    &&& old(self).window().start <= old(self).window().pos
                    &&& n > 0 ==> old(self).window().pos + n <= old(self).window().end
                    &&& final(self).window() == old(self).window().advanced(n as int)
                    &&& final(buf)@.take(n as int) == bytes_at(
                        old(self).wrapped().bytes(),
                        old(self).window().pos,
                        n as int,
                    )
                },
                Err(e) => e is Inner && final(self).window() == old(self).window(),
            },
            old(self).window().remaining() == 0 ==> r is Ok && final(self).wrapped() == old(
                self,
            ).wrapped(),
    {
        proof {
            use_type_invariant(&self.window);
            assert(self.ready() == self.window().limit(self.wrapped().ready() as int));
        }
        if self.window.remaining() == 0 {
            proof {
                assert(final(buf)@.take(0) =~= Seq::<u8>::empty());
            }
            return Ok(0);
        }
        let to_read = self.window.limit(buf.len());
        let (head, _rest) = buf.split_at_mut(to_read);
        match self.inner.read(head) {
            Ok(n) => {
                self.window.advance(n);
                proof {
                    let all = old(self).wrapped().bytes();
                    let w = old(self).window();
                    assert(final(buf)@.take(n as int) =~= final(head)@.take(n as int));
                    assert(final(buf)@.skip(to_read as int) =~= old(buf)@.skip(to_read as int));
                    let kept = old(buf)@.skip(to_read as int);
                    assert(final(buf)@.skip(n as int) =~= final(head)@.skip(n as int) + kept);
                    assert(old(buf)@.skip(n as int) =~= old(buf)@.subrange(0, to_read as int).skip(
                        n as int,
                    ) + kept);
                    assert(bytes_at(all, w.pos, n as int) =~= bytes_at(
                        bytes_between(all, w.start, w.end),
                        w.position(),
                        n as int,
                    ));
                }
                Ok(n)
            },
            Err(e) => {
                proof {
                    assert(final(buf)@.skip(to_read as int) =~= old(buf)@.skip(to_read as int));
                }
                Err(Error::Inner(e))
            },
        }
    }

    /// Reads all that is left of the window and appends it to `out`. The
    /// position moves by as much as was appended, also where a read of the
    /// wrapped stream fails on the way.
    fn read_to_end(&mut self, out: &mut Vec<u8>) -> (r: Result<usize, Self::Error>)
        ensures
            final(self).wrapped().bytes() == old(self).wrapped().bytes(),
            final(self).window() == old(self).window().advanced(
                final(out)@.len() - old(out)@.len(),
            ),
            r matches Err(e) ==> e is Inner,
    {
        let before = out.len();
        let mut chunk = zeros(64);
        let ghost bytes = self.bytes();
        let ghost from = self.cursor() as int;
        let ghost had = out@;
        let ghost w = self.window();
        proof {
            assert(out@ =~= had + bytes_at(bytes, from, 0));
        }
        loop
            invariant
                chunk@.len() == 64,
                self.inv(),
                bytes == old(self).bytes(),
                from == old(self).cursor(),
                had == old(out)@,
                w == old(self).window(),
                old(self).unfailing() ==> self.unfailing(),
                self.bytes() == bytes,
                self.wrapped().bytes() == old(self).wrapped().bytes(),
                self.window() == w.advanced(out@.len() - had.len()),
                before == had.len(),
                from <= self.cursor(),
                self.cursor() - from <= available(bytes, from),
                self.cursor() - from == out@.len() - had.len(),
                out@ == had + bytes_at(bytes, from, out@.len() - had.len()),
            decreases available(bytes, self.cursor() as int),
        {
            let ghost at = self.cursor() as int;
            let n = match self.read(chunk.as_mut_slice()) {
                Ok(n) => n,
                Err(e) => {
                    return Err(e);
                },
            };
            if n == 0 {
                return Ok(out.len() - before);
            }
            append_front(out, &chunk, n);
            proof {
                assert(bytes_at(bytes, from, at - from) + bytes_at(bytes, at, n as int)
                    =~= bytes_at(bytes, from, at - from + n));
                assert(out@ =~= had + bytes_at(bytes, from, out@.len() - had.len()));
            }
        }
    }
}

impl<R: BufRead> BufRead for SubReader<R> {
    /// What the wrapped stream shows, as far as it lies before the end of the
    /// window.
    open spec fn peek(&self) -> Seq<u8> {
        self.wrapped().peek().take(self.window().limit(self.wrapped().peek().len() as int))
    }

    /// Shows the bytes at the position: all that the wrapped stream shows
    /// where they lie before the end of the window, else those of them that
    /// do. Once the position has reached the end, it shows nothing and the
    /// wrapped stream is not touched.
    fn fill_buf(&mut self) -> (r: Result<&[u8], Self::Error>)
        ensures
            final(self).wrapped().bytes() == old(self).wrapped().bytes(),
            final(self).window() == old(self).window(),
            r matches Err(e) ==> e is Inner,
            old(self).window().remaining() == 0 ==> r is Ok && final(self).wrapped() == old(
                self,
            ).wrapped(),
    {
        proof {
            use_type_invariant(&self.window);
        }
        if self.window.remaining() == 0 {
            let nothing: &[u8] = &[];
            proof {
                assert(nothing@ =~= self.peek());
            }
            return Ok(nothing);
        }
        let ghost w = self.window();
        match self.inner.fill_buf() {
            Ok(shown) => {
                let cut = self.window.clamp(shown);
                proof {
                    assert forall|k: nat| 0 < k <= cut@.len() implies #[trigger] (w.limit(
                        k as int,
                    ) as nat) == k by {}
                }
                Ok(cut)
            },
            Err(e) => Err(Error::Inner(e)),
        }
    }

    /// Any number of bytes, as long as the wrapped stream lets those of them
    /// that lie before the end of the window be consumed, and takes them
    /// all.
    open spec fn consumable(&self, amt: nat) -> bool {
        let taken = self.window().limit(amt as int) as nat;
        self.wrapped().consumable(taken) && self.wrapped().consumed(taken) == taken
    }

    /// As many of `amt` bytes as lie before the end of the window.
    open spec fn consumed(&self, amt: nat) -> nat {
        self.window().limit(amt as int) as nat
    }

    /// Moves the position past `amt` bytes, or past those that lie before the
    /// end of the window if they are fewer. The wrapped stream is asked to
    /// consume as many, and its cursor moves with the position.
    fn consume(&mut self, amt: usize)
        ensures
            final(self).wrapped().bytes() == old(self).wrapped().bytes(),
            final(self).window() == old(self).window().advanced(
                old(self).window().limit(amt as int),
            ),
            final(self).wrapped().cursor() == old(self).wrapped().cursor() + old(
                self,
            ).window().limit(amt as int),
    {
        proof {
            use_type_invariant(&self.window);
        }
        let taken = self.window.limit(amt);
        self.inner.consume(taken);
        self.window.advance(taken);
    }
}

impl<R: Seek> Seek for SubReader<R> {
    /// The length that the window has.
    open spec fn size(&self) -> u64 {
        self.window().length() as u64
    }

    /// An offset that is within the bounds of the window and that the
    /// wrapped stream reaches. The offset is counted from the start of the
    /// window; the wrapped stream is asked for it as it counts.
    open spec fn reaches(&self, target: int) -> bool {
        &&& self.window().within(self.window().start + target)
        &&& self.wrapped().reaches(self.window().start + target)
    }

    /// Moves the position, and the cursor of the wrapped stream by as much.
    /// Offsets are counted from the start of the window, and a seek from the
    /// end from the end of the window. A seek to before the start, or one
    /// whose arithmetic overflows, is refused and changes nothing.
    fn seek(&mut self, from: SeekFrom) -> (r: Result<u64, Self::Error>)
        ensures
            final(self).wrapped().bytes() == old(self).wrapped().bytes(),
            (r matches Err(Error::OutOfBounds)) <==> !old(self).window().admits(from),
            old(self).window().target(from) < old(self).window().start ==> (r matches Err(
                Error::OutOfBounds,
            )) && *final(self) == *old(self),
            old(self).window().admits(from) && old(self).wrapped().reaches(
                old(self).window().target(from),
            ) ==> r is Ok,
            match r {
                Ok(offset) => {
                    &&& final(self).window() == old(self).window().moved_to(
                        old(self).window().target(from),
                    )
                    &&& offset == final(self).window().position()
                },
                Err(Error::OutOfBounds) => *final(self) == *old(self),
                Err(Error::Inner(_)) => final(self).window() == old(self).window(),
            },
    {
        let (target, delta) = self.window.resolve::<R::Error>(from)?;
        match self.inner.seek_relative(delta) {
            Ok(()) => {
                self.window.move_to(target);
                Ok(self.window.position())
            },
            Err(e) => Err(Error::Inner(e)),
        }
    }

    /// Moves the position by `offset` bytes, forward or back.
    fn seek_relative(&mut self, offset: i64) -> (r: Result<(), Self::Error>)
        ensures
            final(self).wrapped().bytes() == old(self).wrapped().bytes(),
            (r matches Err(Error::OutOfBounds)) <==> !old(self).window().admits(
                SeekFrom::Current(offset),
            ),
            match r {
                Ok(_) => final(self).window() == old(self).window().advanced(offset as int),
                Err(Error::OutOfBounds) => *final(self) == *old(self),
                Err(Error::Inner(_)) => final(self).window() == old(self).window(),
            },
    {
        match self.seek(SeekFrom::Current(offset)) {
            Ok(_) => Ok(()),
            Err(e) => Err(e),
        }
    }

    /// The position, counted from the start of the window. It asks nothing
    /// of the wrapped stream and does not fail.
    fn stream_position(&mut self) -> (r: Result<u64, Self::Error>)
        ensures
            *final(self) == *old(self),
            r is Ok,
    {
        Ok(self.window.position())
    }
}

} // verus!
