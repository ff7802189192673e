//! The capability through which the buffer has its lines highlighted.
//!
//! A highlighter computes the annotations of a line when it is told to, and
//! keeps them; the buffer reads them back when it renders the line.

use std::collections::HashMap;
use vstd::prelude::*;
use crate::annotation::{Annotation, AnnotationType};
use crate::line::Line;
use crate::position::LineIdx;
use crate::search::occurs_at;
use crate::wording::chars_of;

verus! {

/// A highlighter of lines.
pub trait SyntaxHighlighter: Sized {
    /// The annotations kept for line `idx`; `None` where the line has never
    /// been highlighted.
    spec fn cached(&self, idx: LineIdx) -> Option<Seq<Annotation>>;

    /// Whether `after` is the highlighter `before` once it has highlighted
    /// line `idx`, of the given text.
    spec fn highlighted(before: Self, after: Self, idx: LineIdx, text: Seq<char>) -> bool;

    /// Computes and keeps the annotations of line `idx`.
    fn highlight(&mut self, idx: LineIdx, line: &Line)
        ensures
            Self::highlighted(*old(self), *final(self), idx, line@),
            final(self).cached(idx) is Some,
    ;

    /// Computes and keeps the annotations of line `idx`, given as a plain
    /// string.
    fn highlight_string(&mut self, idx: LineIdx, line_str: &str)
        ensures
            Self::highlighted(*old(self), *final(self), idx, line_str@),
            final(self).cached(idx) is Some,
    ;

    /// The annotations kept for line `idx`. Nothing is computed here.
    fn get_annotations(&self, idx: LineIdx) -> (annotations: Option<&Vec<Annotation>>)
        ensures
            annotations is Some == self.cached(idx) is Some,
            annotations matches Some(list) ==> self.cached(idx) == Some(list@),
    ;

    /// Highlighting is idempotent: highlighting a line once more, with the
    /// same text, keeps the annotations that the first time gave.
    proof fn lemma_highlight_again(
        before: Self,
        once: Self,
        twice: Self,
        idx: LineIdx,
        text: Seq<char>,
    )
        requires
            Self::highlighted(before, once, idx, text),
            Self::highlighted(once, twice, idx, text),
        ensures
            twice.cached(idx) == once.cached(idx),
    ;
}

/// The annotations that mark the places where `word` stands in `line`, from
/// offset `from` on and from left to right. A place that overlaps the one
/// before it is not marked; an empty word stands nowhere.
pub open spec fn match_annotations(line: Seq<char>, word: Seq<char>, from: int) -> Seq<Annotation>
    decreases line.len() - from,
{
    if word.len() == 0 || from < 0 || from + word.len() > line.len() {
        Seq::empty()
    } else if occurs_at(line, word, from) {
        seq![
            Annotation {
                annotation_type: AnnotationType::Match,
                start: from as usize,
                end: (from + word.len()) as usize,
            },
        ] + match_annotations(line, word, from + word.len())
    } else {
        match_annotations(line, word, from + 1)
    }
}

/// Whether `word` stands in `line` at offset `pos`.
fn stands_at(line: &Vec<char>, word: &Vec<char>, pos: usize) -> (found: bool)
    requires
        pos + word@.len() <= line@.len(),
    ensures
        found == occurs_at(line@, word@, pos as int),
{
    let n = line.len();
    let mut i: usize = 0;
    while i < word.len()
        invariant
            i <= word@.len(),
            pos + word@.len() <= line@.len() == n,
            forall|j: int| 0 <= j < i ==> line@[pos + j] == word@[j],
        decreases word@.len() - i,
    {
        if line[pos + i] != word[i] {
            proof {
                let stretch = line@.subrange(pos as int, pos + word@.len());
                assert(stretch[i as int] == line@[pos + i]);
            }
            return false;
        }
        i += 1;
    }
    assert(line@.subrange(pos as int, pos + word@.len()) =~= word@);
    true
}

/// Marks the places where `word` stands in `line`.
fn find_matches(line: &Vec<char>, word: &Vec<char>) -> (found: Vec<Annotation>)
    ensures
        found@ == match_annotations(line@, word@, 0),
{
    let mut found: Vec<Annotation> = Vec::new();
    let n = line.len();
    let m = word.len();
    if m == 0 || m > n {
        return found;
    }
    let last = n - m;
    let mut pos: usize = 0;
    while pos <= last
        invariant
            pos <= n == line@.len(),
            0 < m == word@.len(),
            last + m == n,
            found@ + match_annotations(line@, word@, pos as int) == match_annotations(
                line@,
                word@,
                0,
            ),
        decreases n - pos,
    {
        let ghost before = found@;
        if stands_at(line, word, pos) {
            found.push(Annotation { annotation_type: AnnotationType::Match, start: pos, end: pos + m });
            assert(found@ + match_annotations(line@, word@, pos + m) =~= before
                + match_annotations(line@, word@, pos as int));
            pos += m;
        } else {
            pos += 1;
        }
    }
    assert(found@ + match_annotations(line@, word@, pos as int) =~= found@);
    found
}

/// A highlighter that marks the places where a word stands in a line.
pub struct SearchResultHighlighter {
    matched_word: Vec<char>,
    highlights: HashMap<LineIdx, Vec<Annotation>>,
}

impl SearchResultHighlighter {
    /// The word that is marked.
    pub closed spec fn word(&self) -> Seq<char> {
        self.matched_word@
    }

    /// A highlighter that marks `matched_word` and has highlighted no line
    /// yet.
    pub fn new(matched_word: &str) -> (highlighter: SearchResultHighlighter)
        ensures
            highlighter.word() == matched_word@,
            forall|idx: LineIdx| highlighter.cached(idx) is None,
    {
        SearchResultHighlighter { matched_word: chars_of(matched_word), highlights: HashMap::new() }
    }

    /// Marks the word in the given characters and keeps the marks for line
    /// `idx`.
    fn highlight_chars(&mut self, idx: LineIdx, chars: &Vec<char>)
        ensures
            Self::highlighted(*old(self), *final(self), idx, chars@),
    {
        broadcast use vstd::std_specs::hash::group_hash_axioms;

        let found = find_matches(chars, &self.matched_word);
        self.highlights.insert(idx, found);
    }
}

impl SyntaxHighlighter for SearchResultHighlighter {
    closed spec fn cached(&self, idx: LineIdx) -> Option<Seq<Annotation>> {
        if self.highlights@.contains_key(idx) {
            Some(self.highlights@[idx]@)
        } else {
            None
        }
    }

    /// Highlighting a line keeps the marks of the word in its text for that
    /// line, and leaves the word and the other lines as they are.
    open spec fn highlighted(before: Self, after: Self, idx: LineIdx, text: Seq<char>) -> bool {
        &&& after.word() == before.word()
        &&& after.cached(idx) == Some(match_annotations(text, before.word(), 0))
        &&& forall|other: LineIdx| other != idx ==> after.cached(other) == before.cached(other)
    }

    fn highlight(&mut self, idx: LineIdx, line: &Line) {
        let chars = line.grapheme_chars();
        self.highlight_chars(idx, &chars);
    }

    fn highlight_string(&mut self, idx: LineIdx, line_str: &str) {
        let chars = chars_of(line_str);
        self.highlight_chars(idx, &chars);
    }

    fn get_annotations(&self, idx: LineIdx) -> (annotations: Option<&Vec<Annotation>>) {
        broadcast use vstd::std_specs::hash::group_hash_axioms;

        self.highlights.get(&idx)
    }

    proof fn lemma_highlight_again(
        before: Self,
        once: Self,
        twice: Self,
        idx: LineIdx,
        text: Seq<char>,
    ) {
    }
}

} // verus!
