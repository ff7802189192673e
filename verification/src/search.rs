//! What it means to find a text within another, as a model over `Seq<char>`.
//!
//! A search compares character by character, so it tells upper case from lower, and does
//! not wrap around at either end of the text.

use vstd::prelude::*;
use crate::lines::{line_breaks, line_start};
use crate::position::Location;

verus! {

/// Whether `query` stands in `text` at offset `pos`.
pub open spec fn occurs_at(text: Seq<char>, query: Seq<char>, pos: int) -> bool {
    0 <= pos && pos + query.len() <= text.len() && text.subrange(pos, pos + query.len()) == query
}

/// Whether `pos` is the first offset at or behind `from` at which `query`
/// stands in `text`.
pub open spec fn is_first_occurrence(text: Seq<char>, query: Seq<char>, from: int, pos: int) -> bool {
    &&& from <= pos
    &&& occurs_at(text, query, pos)
    &&& forall|p: int| from <= p < pos ==> !occurs_at(text, query, p)
}

/// Whether `pos` is the last offset at which `query` stands in `text` and
/// ends at or before `until`.
pub open spec fn is_last_occurrence(text: Seq<char>, query: Seq<char>, until: int, pos: int) -> bool {
    &&& pos + query.len() <= until
    &&& occurs_at(text, query, pos)
    &&& forall|p: int| pos < p && p + query.len() <= until ==> !occurs_at(text, query, p)
}

/// The offset that a location stands for in a search: the start of its line
/// plus its grapheme index, and the end of the text where that lies behind
/// the text or the line does not exist.
pub open spec fn search_offset(text: Seq<char>, at: Location) -> nat {
    if at.line_idx > line_breaks(text) {
        text.len()
    } else if line_start(text, at.line_idx as nat) + at.grapheme_idx > text.len() {
        text.len()
    } else {
        (line_start(text, at.line_idx as nat) + at.grapheme_idx) as nat
    }
}

/// The location of an offset: the line that holds it, and its distance from
/// the start of that line.
pub open spec fn location_of(text: Seq<char>, offset: int) -> Location {
    let line = line_breaks(text.take(offset));
    Location {
        line_idx: line as usize,
        grapheme_idx: (offset - line_start(text, line)) as usize,
    }
}

} // verus!
