//! Laws of the line format: what the written bytes allow a reader to recover.

use crate::text::{displays, displays_each, line, lines, TERMINATOR};
use crate::writer::wrote_all;
use std::fmt::Display;
use vstd::prelude::*;

verus! {

/// The segments that the terminators of `bytes` separate, in order: the bytes
/// before the first terminator, those between each terminator and the next,
/// and those after the last. `n` terminators give `n + 1` segments, of which
/// none holds a terminator and any may be empty.
pub open spec fn segments(bytes: Seq<u8>) -> Seq<Seq<u8>>
    decreases bytes.len(),
{
    if bytes.len() == 0 {
        seq![Seq::empty()]
    } else {
        let earlier = segments(bytes.drop_last());
        if bytes.last() == TERMINATOR {
            earlier.push(Seq::empty())
        } else {
            earlier.drop_last().push(earlier.last().push(bytes.last()))
        }
    }
}

/// No byte of `text` is the terminator.
pub open spec fn unbroken(text: Seq<u8>) -> bool {
    !text.contains(TERMINATOR)
}

/// The segments of any bytes hold no terminator, and put together again with
/// a terminator after each but the last they are those bytes.
pub proof fn law_segments_rejoin(bytes: Seq<u8>)
    ensures
        segments(bytes).len() > 0,
        forall|i: int| 0 <= i < segments(bytes).len() ==> unbroken(#[trigger] segments(bytes)[i]),
        lines(segments(bytes).drop_last()) + segments(bytes).last() == bytes,
    decreases bytes.len(),
{
    if bytes.len() > 0 {
        let shorter = bytes.drop_last();
        let earlier = segments(shorter);
        law_segments_rejoin(shorter);
        assert(shorter.push(bytes.last()) == bytes);
        if bytes.last() == TERMINATOR {
            assert(earlier.push(Seq::empty()).drop_last() == earlier);
        } else {
            let grown = earlier.last().push(bytes.last());
            assert(earlier.drop_last().push(grown).drop_last() == earlier.drop_last());
            assert(lines(earlier.drop_last()) + grown == (lines(earlier.drop_last())
                + earlier.last()).push(bytes.last()));
        }
    }
}

/// Text without a terminator, put after any bytes, lengthens their last
/// segment and adds none.
proof fn lemma_segments_extend(bytes: Seq<u8>, text: Seq<u8>)
    requires
        unbroken(text),
    ensures
        segments(bytes).len() > 0,
        segments(bytes + text) == segments(bytes).drop_last().push(segments(bytes).last() + text),
    decreases text.len(),
{
    law_segments_rejoin(bytes);
    if text.len() > 0 {
        let shorter = text.drop_last();
        assert(text.last() != TERMINATOR && unbroken(shorter));
        lemma_segments_extend(bytes, shorter);
        assert((bytes + text).drop_last() == bytes + shorter);
        assert((segments(bytes).last() + shorter).push(text.last()) == segments(bytes).last()
            + text);
    }
}

/// Lines written one run after another are the lines of the two runs joined:
/// a second call appends its lines to those of the first.
pub proof fn law_lines_append(first: Seq<Seq<u8>>, second: Seq<Seq<u8>>)
    ensures
        lines(first + second) == lines(first) + lines(second),
    decreases second.len(),
{
    if second.len() > 0 {
        law_lines_append(first, second.drop_last());
        assert((first + second).drop_last() == first + second.drop_last());
    }
}

/// Splitting written lines at the terminators gives back the texts, followed
/// by one empty segment after the last terminator, provided that no text holds
/// a terminator itself.
pub proof fn law_segments_of_lines(texts: Seq<Seq<u8>>)
    requires
        forall|i: int| 0 <= i < texts.len() ==> unbroken(#[trigger] texts[i]),
    ensures
        segments(lines(texts)) == texts.push(Seq::empty()),
    decreases texts.len(),
{
    if texts.len() > 0 {
        let earlier = texts.drop_last();
        let text = texts.last();
        law_segments_of_lines(earlier);
        lemma_segments_extend(lines(earlier), text);
        assert((lines(earlier) + line(text)).drop_last() == lines(earlier) + text);
    }
}

/// What `write_lines` has written to an empty sink can be read back: split at
/// the terminators, the content gives a rendering of each item in order and
/// then one empty segment, provided that no item renders to text that holds a
/// terminator.
pub proof fn law_round_trip<T: Display>(items: Seq<T>, count: usize, content: Seq<u8>)
    requires
        wrote_all(Seq::empty(), items, count, content),
        forall|i: int, text: Seq<u8>|
            0 <= i < items.len() && #[trigger] displays(items[i], text) ==> unbroken(text),
    ensures
        segments(content).len() == count + 1,
        displays_each(items, segments(content).drop_last()),
        segments(content).last() == Seq::<u8>::empty(),
{
    let texts = choose|texts: Seq<Seq<u8>>|
        displays_each(items, texts) && content == Seq::<u8>::empty() + #[trigger] lines(texts);
    assert forall|i: int| 0 <= i < texts.len() implies unbroken(#[trigger] texts[i]) by {
        assert(displays(items[i], texts[i]));
    }
    law_segments_of_lines(texts);
}

} // verus!
