//! Windows onto byte streams.
//!
//! A window presents the byte range `[start, end)` of a stream as a stream of
//! its own that starts at offset zero. [`SubReader`] is the window for
//! reading, [`SubWriter`] the one for writing; both keep a position of their
//! own and move the wrapped stream along with it.
//!
//! The streams themselves are described by the traits of [`stream`]. Each
//! stream has a ghost model, its bytes and its cursor, and the contracts of
//! the windows are stated over the model of the stream they wrap. The
//! windows are streams too, so a window can wrap a window.
//!
//! [`window`] holds the arithmetic that both windows share, with what is
//! proved of it, and [`cursor`] a stream in memory.
pub mod cursor;
pub mod error;
pub mod read;
pub mod stream;
pub mod window;
pub mod write;

pub use cursor::{Cursor, OutOfRange};
pub use error::{map_seek_oob, seek_oob, Error};
pub use read::SubReader;
pub use stream::{BufRead, Read, Seek, SeekFrom, Stream, Write};
pub use window::Window;
pub use write::SubWriter;
