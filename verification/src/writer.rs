//! Writing an iterator's items as lines.

use crate::sink::ByteSink;
use crate::text::{displays_each, line, lines, TERMINATOR};
use std::fmt::Display;
use vstd::prelude::*;
use vstd::std_specs::iter::IteratorSpec;
use vstd::string::StringSliceAdditionalSpecFns;
use vstd::utf8::encode_utf8;

verus! {

/// Every item was written: `count` is their number, and the sink went from
/// `before` to `after` by taking a rendering of each item as a line, in order.
pub open spec fn wrote_all<T: Display>(
    before: Seq<u8>,
    items: Seq<T>,
    count: usize,
    after: Seq<u8>,
) -> bool {
    &&& count == items.len()
    &&& exists|texts: Seq<Seq<u8>>|
        displays_each(items, texts) && after == before + #[trigger] lines(texts)
}

/// The write of item number `texts.len()` failed, counting from one: `texts`
/// renders the items up to and including that one, the lines before the last
/// were written whole, of the last line the sink took at most a leading part,
/// and nothing came after it.
pub open spec fn stopped_at<T: Display>(
    before: Seq<u8>,
    items: Seq<T>,
    texts: Seq<Seq<u8>>,
    after: Seq<u8>,
) -> bool {
    &&& 0 < texts.len() <= items.len()
    &&& displays_each(items.take(texts.len() as int), texts)
    &&& (before + lines(texts.drop_last())).is_prefix_of(after)
    &&& after.is_prefix_of(before + lines(texts))
}

/// A write failed and ended the call: see [`stopped_at`].
pub open spec fn stopped_early<T: Display>(before: Seq<u8>, items: Seq<T>, after: Seq<u8>) -> bool {
    exists|texts: Seq<Seq<u8>>| stopped_at(before, items, texts, after)
}

/// The running count after one more write: one more line if the write
/// succeeded, and the write's own error if it failed.
pub fn tally(written: usize, outcome: Result<(), std::io::Error>) -> (result: Result<
    usize,
    std::io::Error,
>)
    requires
        written < usize::MAX,
    ensures
        outcome is Ok ==> result == Ok::<usize, std::io::Error>((written + 1) as usize),
        outcome matches Err(error) ==> result == Err::<usize, std::io::Error>(error),
{
    match outcome {
        Ok(_) => Ok(written + 1),
        Err(error) => Err(error),
    }
}

/// The bytes of the line that holds `text`.
fn line_bytes(text: &str) -> (bytes: Vec<u8>)
    ensures
        bytes@ == line(text.spec_bytes()),
{
    let mut bytes: Vec<u8> = Vec::new();
    bytes.extend_from_slice(text.as_bytes());
    bytes.push(TERMINATOR);
    bytes
}

/// Writing text to a sink line by line. Every [`ByteSink`] is a `LinesWriter`.
pub trait LinesWriter: ByteSink + Sized {
    /// Writes `text` and the terminator in a single write.
    fn write_line(&mut self, text: &str) -> (outcome: Result<(), std::io::Error>)
        ensures
            final(self).never_fails() == old(self).never_fails(),
            old(self).never_fails() ==> outcome is Ok,
            outcome is Ok ==> final(self).written() == old(self).written() + line(
                text.spec_bytes(),
            ),
            outcome is Ok ==> final(self).last_error() is None,
            outcome is Err ==> old(self).written().is_prefix_of(final(self).written()),
            outcome is Err ==> final(self).written().is_prefix_of(
                old(self).written() + line(text.spec_bytes()),
            ),
            outcome matches Err(error) ==> final(self).last_error() == Some(error),
    ;

    /// Writes each item of `iterator` on a line of its own, in the iterator's
    /// order, and returns the number of items.
    ///
    /// Each item is rendered with its `Display` implementation and written
    /// with [`write_line`](LinesWriter::write_line). The first write that
    /// fails ends the call: its error is returned as the sink gave it, and the
    /// items after it are neither rendered nor written. An empty iterator
    /// leaves the sink as it was.
    ///
    /// The iterator has to come to an end and stay there, and to yield no more
    /// items than a `usize` can count.
    fn write_lines<I>(&mut self, iterator: I) -> (result: Result<usize, std::io::Error>) where
        I: Iterator,
        I::Item: Display,

        requires
            iterator.obeys_prophetic_iter_laws(),
            iterator.remaining().len() <= usize::MAX,
        ensures
            final(self).never_fails() == old(self).never_fails(),
            old(self).never_fails() ==> result is Ok,
            iterator.remaining().len() == 0 ==> result == Ok::<usize, std::io::Error>(0)
                && *final(self) == *old(self),
            result matches Ok(count) ==> wrote_all(
                old(self).written(),
                iterator.remaining(),
                count,
                final(self).written(),
            ),
            result is Ok && iterator.remaining().len() > 0 ==> final(self).last_error() is None,
            result is Err ==> stopped_early(
                old(self).written(),
                iterator.remaining(),
                final(self).written(),
            ),
            result matches Err(error) ==> final(self).last_error() == Some(error),
    ;
}

impl<S: ByteSink> LinesWriter for S {
    fn write_line(&mut self, text: &str) -> (outcome: Result<(), std::io::Error>) {
        let bytes = line_bytes(text);
        self.write_bytes(bytes.as_slice())
    }

    fn write_lines<I>(&mut self, iterator: I) -> (result: Result<usize, std::io::Error>) where
        I: Iterator,
        I::Item: Display,
    {
        let mut rest = iterator;
        let mut count: usize = 0;
        let ghost items = iterator.remaining();
        let ghost before = self.written();
        let ghost mut texts: Seq<Seq<u8>> = Seq::empty();
        loop
            invariant
                rest.obeys_prophetic_iter_laws(),
                items == iterator.remaining(),
                items.len() <= usize::MAX,
                count == texts.len() <= items.len(),
                rest.remaining() == items.skip(count as int),
                displays_each(items.take(count as int), texts),
                before == old(self).written(),
                self.written() == before + lines(texts),
                self.never_fails() == old(self).never_fails(),
                count == 0 ==> *self == *old(self),
                count > 0 ==> self.last_error() is None,
            decreases usize::MAX - count,
        {
            match rest.next() {
                None => {
                    assert(items.take(count as int) == items);
                    return Ok(count);
                },
                Some(item) => {
                    let rendered = item.to_string();
                    let outcome = self.write_line(rendered.as_str());
                    proof {
                        let text = encode_utf8(rendered@);
                        let longer = texts.push(text);
                        assert(longer.drop_last() == texts);
                        assert(outcome is Err ==> stopped_at(
                            before,
                            items,
                            longer,
                            self.written(),
                        ));
                        texts = longer;
                    }
                    count = tally(count, outcome)?;
                },
            }
        }
    }
}

} // verus!
