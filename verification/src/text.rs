//! The bytes of a line, and of a run of lines.

use std::fmt::Display;
use vstd::prelude::*;
use vstd::string::to_string_from_display_ensures;
use vstd::utf8::encode_utf8;

verus! {

/// The byte that ends every line: a line feed, on every platform.
pub const TERMINATOR: u8 = 0x0A;

/// One line: the text followed by the terminator.
pub open spec fn line(text: Seq<u8>) -> Seq<u8> {
    text.push(TERMINATOR)
}

/// The lines of `texts` one after another, in order.
pub open spec fn lines(texts: Seq<Seq<u8>>) -> Seq<u8>
    decreases texts.len(),
{
    if texts.len() == 0 {
        Seq::empty()
    } else {
        lines(texts.drop_last()) + line(texts.last())
    }
}

/// `text` is the UTF-8 encoding of a string that `item.to_string()` may
/// return. How a type renders itself is its own affair, so this is a relation
/// and not a function of the item.
pub open spec fn displays<T: Display>(item: T, text: Seq<u8>) -> bool {
    exists|rendered: String| #[trigger]
        to_string_from_display_ensures::<T>(&item, rendered) && encode_utf8(rendered@) == text
}

/// `texts` holds, position by position, a rendering of each of `items`.
pub open spec fn displays_each<T: Display>(items: Seq<T>, texts: Seq<Seq<u8>>) -> bool {
    &&& texts.len() == items.len()
    &&& forall|i: int| 0 <= i < items.len() ==> displays(#[trigger] items[i], texts[i])
}

} // verus!
