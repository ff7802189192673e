//! The annotation model: semantic categories, and ranges of a line tagged
//! with one.

use vstd::prelude::*;

verus! {

/// What a stretch of text is, for the purpose of colouring it.
#[derive(Clone, Copy, Debug, PartialEq, Eq, Structural)]
pub enum AnnotationType {
    LineNumber,
    Match,
    SelectedMatch,
    Number,
    Keyword,
    Type,
    KnownValue,
    Char,
    LifetimeSpecifier,
    Comment,
    String,
}

/// A category given to the characters of a line from offset `start` up to,
/// and not including, offset `end`.
#[derive(Clone, Copy, Debug, PartialEq, Eq, Structural)]
pub struct Annotation {
    pub annotation_type: AnnotationType,
    pub start: usize,
    pub end: usize,
}

} // verus!
