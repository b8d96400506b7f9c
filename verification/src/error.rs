//! The one failure that a window raises itself, beside those of the stream
//! it wraps.
use vstd::prelude::*;

verus! {

/// Why an operation on a window failed.
#[derive(Debug, PartialEq, Eq)]
pub enum Error<E> {
    /// Invalid input: the seek position is out of bounds. The position asked
    /// for lies before the start of the window, or computing it overflowed.
    OutOfBounds,
    /// A failure of the wrapped stream, handed on as it came.
    Inner(E),
}

impl<E> Error<E> {
    /// Whether the caller's input was at fault, not the wrapped stream.
    pub fn is_invalid_input(&self) -> (r: bool)
        ensures
            r == (*self is OutOfBounds),
    {
        match self {
            Error::OutOfBounds => true,
            Error::Inner(_) => false,
        }
    }

    /// The text that goes with a bounds violation; a failure of the wrapped
    /// stream speaks for itself.
    pub fn message(&self) -> (r: Option<&'static str>)
        ensures
            *self is OutOfBounds ==> r is Some && r->Some_0@ == "seek position out of bounds"@,
            *self is Inner ==> r is None,
    {
        match self {
            Error::OutOfBounds => Some("seek position out of bounds"),
            Error::Inner(_) => None,
        }
    }

    /// The failure of the wrapped stream, if that is what this is.
    pub fn into_inner(self) -> (r: Option<E>)
        ensures
            r == (match self {
                Error::OutOfBounds => None::<E>,
                Error::Inner(e) => Some(e),
            }),
    {
        match self {
            Error::OutOfBounds => None,
            Error::Inner(e) => Some(e),
        }
    }
}

/// The bounds violation, as the result of any operation.
pub fn seek_oob<T, E>() -> (r: Result<T, Error<E>>)
    ensures
        r is Err,
        r->Err_0 is OutOfBounds,
{
    Err(Error::OutOfBounds)
}

/// Turns the outcome of a checked offset computation into a result: an
/// offset that could not be computed is a bounds violation.
pub fn map_seek_oob<E>(maybe_pos: Option<u64>) -> (r: Result<u64, Error<E>>)
    ensures
        match maybe_pos {
            Some(pos) => r is Ok && r->Ok_0 == pos,
            None => r is Err && r->Err_0 is OutOfBounds,
        },
{
    match maybe_pos {
        Some(pos) => Ok(pos),
        None => seek_oob(),
    }
}

} // verus!
