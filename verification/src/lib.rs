//! Writes the items of an iterator to a byte sink, one item per line.
//!
//! [`LinesWriter::write_lines`] renders each item with its `Display`
//! implementation, appends the line terminator and hands the line to the sink
//! in a single write. It stops at the first write that fails and returns the
//! sink's error unchanged; otherwise it returns the number of lines.
//!
//! ```text
//! let mut buffer: Vec<u8> = Vec::new();
//! let count = buffer.write_lines([10, 15, 63, 29].iter())?;
//! // count == 4, buffer == b"10\n15\n63\n29\n"
//!
//! let mut out = Logged::new(std::io::stdout());
//! out.write_lines("one\ntwo".lines())?;
//! ```
//!
//! A sink is anything that implements [`ByteSink`], which pairs the write with
//! a model of the bytes the sink has taken. `Vec<u8>` is such a sink. A sink
//! whose behaviour cannot be modelled (a terminal, a file, a socket)
//! implements [`RawSink`] instead and is wrapped in [`Logged`], which keeps a
//! record of the writes that the sink took whole.
//!
//! The module [`laws`] proves that lines written this way can be split again
//! into the texts they were made of.

pub mod laws;
pub mod sink;
pub mod text;
pub mod writer;

pub use sink::{ByteSink, Logged, RawSink};
pub use text::TERMINATOR;
pub use writer::{tally, LinesWriter};
