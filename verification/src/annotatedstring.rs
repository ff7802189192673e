//! A string together with the annotations of its characters.
//!
//! Offsets count characters. When a stretch of the string is replaced, the
//! annotations move with the text: a character of the new text takes the
//! place of the old character at the same distance from the start of the
//! stretch, and what the new text does not reach collapses onto its end. An
//! annotation that covered a character before and covers none afterwards has
//! been cut away, and is dropped.

use vstd::prelude::*;
use crate::annotation::{Annotation, AnnotationType};
use crate::wording::{chars_of, push_char};

verus! {

/// An annotated string as a value: its characters and its annotations, in
/// the order in which they were added.
pub struct AnnotatedText {
    pub text: Seq<char>,
    pub annotations: Seq<Annotation>,
}

/// A string with annotations.
pub struct AnnotatedString {
    text: Vec<char>,
    annotations: Vec<Annotation>,
}

impl View for AnnotatedString {
    type V = AnnotatedText;

    closed spec fn view(&self) -> AnnotatedText {
        AnnotatedText { text: self.text@, annotations: self.annotations@ }
    }
}

/// Where offset `x` lies after the stretch from `start` up to `end` has been
/// replaced by `new_len` characters. Offsets that would pass the largest
/// `usize` stay there.
pub open spec fn moved_offset(x: usize, start: usize, end: usize, new_len: usize) -> usize {
    if x <= start {
        x
    } else if x < end {
        if x - start < new_len {
            x
        } else {
            (start + new_len) as usize
        }
    } else {
        ((x - (end - start)) as usize).saturating_add(new_len)
    }
}

/// An annotation after the stretch from `start` up to `end` has been replaced
/// by `new_len` characters.
pub open spec fn moved(a: Annotation, start: usize, end: usize, new_len: usize) -> Annotation {
    Annotation {
        annotation_type: a.annotation_type,
        start: moved_offset(a.start, start, end, new_len),
        end: moved_offset(a.end, start, end, new_len),
    }
}

/// Whether a change has cut an annotation away: it covered a character as it
/// was given, and covers none as it was moved.
pub open spec fn is_cut_away(given: Annotation, moved: Annotation) -> bool {
    given.start < given.end && moved.start >= moved.end
}

/// The annotations of `moved` that have not been cut away, in order. `given`
/// holds, at the same places, the annotations as they were before the change.
pub open spec fn surviving(moved: Seq<Annotation>, given: Seq<Annotation>) -> Seq<Annotation>
    decreases moved.len(),
{
    if moved.len() == 0 || given.len() == 0 {
        Seq::empty()
    } else if is_cut_away(given.last(), moved.last()) {
        surviving(moved.drop_last(), given.drop_last())
    } else {
        surviving(moved.drop_last(), given.drop_last()).push(moved.last())
    }
}

/// Annotations that were not moved all survive.
pub proof fn lemma_unmoved_survive(annotations: Seq<Annotation>)
    ensures
        surviving(annotations, annotations) == annotations,
    decreases annotations.len(),
{
    if annotations.len() > 0 {
        lemma_unmoved_survive(annotations.drop_last());
        assert(annotations.drop_last().push(annotations.last()) =~= annotations);
    }
}

/// `s` with the stretch from `start` up to `end` replaced by `new_text`, and
/// every annotation moved accordingly. An `end` behind the text counts as the
/// end of the text; where `start` lies behind `end`, nothing changes.
pub open spec fn spliced(s: AnnotatedText, start: usize, end: usize, new_text: Seq<char>) -> AnnotatedText {
    let end = if end > s.text.len() {
        s.text.len() as usize
    } else {
        end
    };
    if start > end {
        s
    } else {
        AnnotatedText {
            text: s.text.subrange(0, start as int) + new_text + s.text.subrange(
                end as int,
                s.text.len() as int,
            ),
            annotations: s.annotations.map_values(
                |a: Annotation| moved(a, start, end, new_text.len() as usize),
            ),
        }
    }
}

/// `s` with the stretch from `start` up to `end` replaced by `new_text`, its
/// annotations moved accordingly, and those dropped that the replacement has
/// cut away.
pub open spec fn replaced(s: AnnotatedText, start: usize, end: usize, new_text: Seq<char>) -> AnnotatedText {
    AnnotatedText {
        text: spliced(s, start, end, new_text).text,
        annotations: surviving(spliced(s, start, end, new_text).annotations, s.annotations),
    }
}

/// Computes where an offset lies after a replacement.
fn move_offset(x: usize, start: usize, end: usize, new_len: usize) -> (moved: usize)
    requires
        start <= end,
    ensures
        moved == moved_offset(x, start, end, new_len),
{
    if x <= start {
        x
    } else if x < end {
        if x - start < new_len {
            x
        } else {
            start + new_len
        }
    } else {
        (x - (end - start)).saturating_add(new_len)
    }
}

impl AnnotatedString {
    /// The given string, without annotations.
    pub fn from(string: &str) -> (result: AnnotatedString)
        ensures
            result@ == (AnnotatedText { text: string@, annotations: Seq::empty() }),
    {
        AnnotatedString { text: chars_of(string), annotations: Vec::new() }
    }

    /// The given characters, without annotations.
    pub fn from_chars(text: Vec<char>) -> (result: AnnotatedString)
        ensures
            result@ == (AnnotatedText { text: text@, annotations: Seq::empty() }),
    {
        AnnotatedString { text, annotations: Vec::new() }
    }

    /// Number of characters.
    pub fn len(&self) -> (n: usize)
        ensures
            n == self@.text.len(),
    {
        self.text.len()
    }

    /// The characters as a string.
    pub fn to_string(&self) -> (s: String)
        ensures
            s@ == self@.text,
    {
        let mut s = String::new();
        let mut i: usize = 0;
        while i < self.text.len()
            invariant
                i <= self.text.len(),
                s@ == self.text@.take(i as int),
            decreases self.text.len() - i,
        {
            push_char(&mut s, self.text[i]);
            i += 1;
            assert(self.text@.take(i as int) =~= self.text@.take(i - 1).push(self.text@[i - 1]));
        }
        assert(self.text@.take(i as int) =~= self.text@);
        s
    }

    /// The annotations, in the order in which they were added.
    pub fn annotations(&self) -> (annotations: &Vec<Annotation>)
        ensures
            annotations@ == self@.annotations,
    {
        &self.annotations
    }

    /// Adds an annotation of the characters from `start` up to `end`.
    pub fn add_annotation(&mut self, annotation_type: AnnotationType, start: usize, end: usize)
        ensures
            final(self)@ == (AnnotatedText {
                text: old(self)@.text,
                annotations: old(self)@.annotations.push(Annotation { annotation_type, start, end }),
            }),
    {
        self.annotations.push(Annotation { annotation_type, start, end });
    }

    /// Replaces the stretch from `start` up to `end` by `new_text` and moves
    /// the annotations with it. Annotations that are left without a character
    /// stay in place; `drop_cut_away` removes them.
    pub fn splice(&mut self, start: usize, end: usize, new_text: &Vec<char>)
        ensures
            final(self)@ == spliced(old(self)@, start, end, new_text@),
    {
        let len = self.text.len();
        let end = if end > len {
            len
        } else {
            end
        };
        if start > end {
            return ;
        }
        let ghost before = self@;
        let new_len = new_text.len();
        let mut tail = self.text.split_off(end);
        self.text.truncate(start);
        let mut i: usize = 0;
        while i < new_len
            invariant
                i <= new_len == new_text@.len(),
                start <= end <= before.text.len(),
                self.annotations@ == before.annotations,
                tail@ == before.text.subrange(end as int, before.text.len() as int),
                self.text@ == before.text.subrange(0, start as int) + new_text@.take(i as int),
            decreases new_len - i,
        {
            self.text.push(new_text[i]);
            i += 1;
            assert(new_text@.take(i as int) =~= new_text@.take(i - 1).push(new_text@[i - 1]));
            assert(self.text@ =~= before.text.subrange(0, start as int) + new_text@.take(i as int));
        }
        assert(new_text@.take(i as int) =~= new_text@);
        self.text.append(&mut tail);
        let count = self.annotations.len();
        let mut j: usize = 0;
        while j < count
            invariant
                j <= count == before.annotations.len(),
                start <= end <= before.text.len(),
                self.annotations@.len() == count,
                self.text@ == before.text.subrange(0, start as int) + new_text@
                    + before.text.subrange(end as int, before.text.len() as int),
                new_len == new_text@.len(),
                forall|k: int|
                    0 <= k < j ==> self.annotations@[k] == moved(
                        before.annotations[k],
                        start,
                        end,
                        new_len,
                    ),
                forall|k: int| j <= k < count ==> self.annotations@[k] == before.annotations[k],
            decreases count - j,
        {
            let a = self.annotations[j];
            self.annotations.set(
                j,
                Annotation {
                    annotation_type: a.annotation_type,
                    start: move_offset(a.start, start, end, new_len),
                    end: move_offset(a.end, start, end, new_len),
                },
            );
            j += 1;
        }
        assert(self@.annotations =~= spliced(before, start, end, new_text@).annotations);
    }

    /// Removes the annotations that a change has cut away: those that cover no
    /// character now, and covered one in `given`, which holds the annotations
    /// as they were before the change, at the same places.
    pub fn drop_cut_away(&mut self, given: &Vec<Annotation>)
        requires
            given@.len() == old(self)@.annotations.len(),
        ensures
            final(self)@ == (AnnotatedText {
                text: old(self)@.text,
                annotations: surviving(old(self)@.annotations, given@),
            }),
    {
        let ghost before = self@;
        let mut kept: Vec<Annotation> = Vec::new();
        let count = self.annotations.len();
        let mut j: usize = 0;
        proof {
            assert(before.annotations.take(0) =~= Seq::<Annotation>::empty());
        }
        while j < count
            invariant
                j <= count == self.annotations@.len() == given@.len(),
                self@ == before,
                kept@ == surviving(before.annotations.take(j as int), given@.take(j as int)),
            decreases count - j,
        {
            let moved = self.annotations[j];
            let was = given[j];
            proof {
                assert(before.annotations.take(j + 1).drop_last() =~= before.annotations.take(
                    j as int,
                ));
                assert(given@.take(j + 1).drop_last() =~= given@.take(j as int));
            }
            if !(was.start < was.end && moved.start >= moved.end) {
                kept.push(moved);
            }
            j += 1;
        }
        proof {
            assert(before.annotations.take(j as int) =~= before.annotations);
            assert(given@.take(j as int) =~= given@);
        }
        self.annotations = kept;
    }

    /// A copy of the annotations.
    fn copy_annotations(&self) -> (copy: Vec<Annotation>)
        ensures
            copy@ == self@.annotations,
    {
        let mut copy: Vec<Annotation> = Vec::new();
        let mut j: usize = 0;
        while j < self.annotations.len()
            invariant
                j <= self.annotations@.len(),
                copy@ == self.annotations@.take(j as int),
            decreases self.annotations@.len() - j,
        {
            copy.push(self.annotations[j]);
            j += 1;
            assert(self.annotations@.take(j as int) =~= self.annotations@.take(j - 1).push(
                self.annotations@[j - 1],
            ));
        }
        assert(self.annotations@.take(j as int) =~= self.annotations@);
        copy
    }

    /// Replaces the stretch from `start` up to `end` by `new_string`, moves the
    /// annotations with it, and removes those that the replacement has cut
    /// away.
    pub fn replace(&mut self, start: usize, end: usize, new_string: &str)
        ensures
            final(self)@ == replaced(old(self)@, start, end, new_string@),
    {
        let new_text = chars_of(new_string);
        let given = self.copy_annotations();
        self.splice(start, end, &new_text);
        self.drop_cut_away(&given);
    }

    /// Removes the characters before `until`.
    pub fn truncate_left_until(&mut self, until: usize)
        ensures
            final(self)@ == replaced(old(self)@, 0, until, Seq::empty()),
    {
        let nothing: Vec<char> = Vec::new();
        let given = self.copy_annotations();
        self.splice(0, until, &nothing);
        self.drop_cut_away(&given);
    }

    /// Removes the characters from `from` on.
    pub fn truncate_right_from(&mut self, from: usize)
        ensures
            final(self)@ == replaced(
                old(self)@,
                from,
                old(self)@.text.len() as usize,
                Seq::empty(),
            ),
    {
        let nothing: Vec<char> = Vec::new();
        let given = self.copy_annotations();
        let len = self.text.len();
        self.splice(from, len, &nothing);
        self.drop_cut_away(&given);
    }
}

impl Default for AnnotatedString {
    /// The empty string, without annotations.
    fn default() -> (result: AnnotatedString)
        ensures
            result@ == (AnnotatedText { text: Seq::empty(), annotations: Seq::empty() }),
    {
        AnnotatedString { text: Vec::new(), annotations: Vec::new() }
    }
}

} // verus!
