//! Grapheme clusters: what a reader takes for one character.
//!
//! A cluster is a character together with the combining marks that follow
//! it. A cluster starts at the first character of a text and at every
//! character that is no combining mark.

use vstd::prelude::*;

verus! {

/// Whether `c` is a combining mark, which belongs to the character before it:
/// the combining diacritical marks and their supplements, the marks for
/// symbols, the half marks, the variation selectors and the joiner.
pub open spec fn is_mark(c: char) -> bool {
    let v = c as u32;
    ||| 0x300 <= v <= 0x36f
    ||| 0x483 <= v <= 0x489
    ||| 0x1ab0 <= v <= 0x1aff
    ||| 0x1dc0 <= v <= 0x1dff
    ||| v == 0x200d
    ||| 0x20d0 <= v <= 0x20ff
    ||| 0xfe00 <= v <= 0xfe0f
    ||| 0xfe20 <= v <= 0xfe2f
}

/// Whether a cluster starts at offset `i` of `text`.
pub open spec fn starts_cluster(text: Seq<char>, i: int) -> bool {
    i == 0 || !is_mark(text[i])
}

/// Number of grapheme clusters of `text`: the offsets at which a cluster
/// starts.
pub open spec fn cluster_count(text: Seq<char>) -> nat
    decreases text.len(),
{
    if text.len() == 0 {
        0
    } else if starts_cluster(text, text.len() - 1) {
        cluster_count(text.drop_last()) + 1
    } else {
        cluster_count(text.drop_last())
    }
}

/// Tells whether a character is a combining mark.
pub fn is_mark_char(c: char) -> (mark: bool)
    ensures
        mark == is_mark(c),
{
    let v = c as u32;
    (0x300 <= v && v <= 0x36f) || (0x483 <= v && v <= 0x489) || (0x1ab0 <= v && v <= 0x1aff) || (
    0x1dc0 <= v && v <= 0x1dff) || v == 0x200d || (0x20d0 <= v && v <= 0x20ff) || (0xfe00 <= v
        && v <= 0xfe0f) || (0xfe20 <= v && v <= 0xfe2f)
}

/// A text has no more clusters than characters, and a text that is not empty
/// has at least one.
pub proof fn lemma_cluster_count_bounds(text: Seq<char>)
    ensures
        cluster_count(text) <= text.len(),
        text.len() > 0 ==> cluster_count(text) >= 1,
    decreases text.len(),
{
    if text.len() > 0 {
        lemma_cluster_count_bounds(text.drop_last());
    }
}

/// In a text without combining marks every character is a cluster.
pub proof fn lemma_clusters_without_marks(text: Seq<char>)
    requires
        forall|i: int| 0 <= i < text.len() ==> !is_mark(#[trigger] text[i]),
    ensures
        cluster_count(text) == text.len(),
    decreases text.len(),
{
    if text.len() > 0 {
        lemma_clusters_without_marks(text.drop_last());
    }
}

} // verus!
