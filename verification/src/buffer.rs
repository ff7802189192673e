//! The text buffer: the document in a rope, the file it belongs to, and
//! whether it has changed since it was last stored.
//!
//! Positions are given as [`Location`]s. Reading and writing the file itself
//! is left to the caller: `load` takes the bytes that were read, and
//! `save_to_file` hands out the bytes that are to be written.

use std::ops::Range;
use ropey::Rope;
use vstd::prelude::*;
use vstd::string::StringExecFns;
use vstd::utf8::{decode_utf8, encode_utf8, valid_utf8};
use crate::annotatedstring::AnnotatedString;
use crate::annotation::Annotation;
use crate::cluster::{cluster_count, is_mark_char, lemma_cluster_count_bounds};
use crate::command::edit::Edit;
use crate::highlighter::SyntaxHighlighter;
use crate::line::{column_at, given, visible_substr, Line};
use crate::lines::{
    grapheme_count, is_single_line, join_lines, lemma_content_line,
    lemma_height_of_terminated_lines, lemma_line_breaks_insert, lemma_line_of_offset,
    lemma_line_start_bounded, lemma_line_start_insert, lemma_line_start_monotone, line_breaks,
    line_graphemes, line_start, line_text, LINE_FEED,
};
use crate::search::{is_first_occurrence, is_last_occurrence, location_of, occurs_at, search_offset};
use crate::wording::chars_of;
use crate::position::{ColIdx, GraphemeIdx, LineIdx, Location};
use crate::rope::{rope_from_bytes, rope_remove, rope_slice_to_string, rope_text, rope_write_to};

verus! {

/// Why a file could not be loaded.
#[derive(Clone, Copy, Debug, PartialEq, Eq, Structural)]
pub enum IoError {
    /// The file holds bytes that are not valid UTF-8.
    InvalidData,
}

/// The file that a buffer belongs to, if any.
pub struct FileInfo {
    path: Option<String>,
}

impl View for FileInfo {
    type V = Option<Seq<char>>;

    closed spec fn view(&self) -> Option<Seq<char>> {
        match self.path {
            Some(path) => Some(path@),
            None => None,
        }
    }
}

impl FileInfo {
    /// The file of the given name.
    pub fn from(file_name: &str) -> (info: FileInfo)
        ensures
            info@ == Some(file_name@),
    {
        FileInfo { path: Some(String::from_str(file_name)) }
    }

    /// No file.
    pub fn none() -> (info: FileInfo)
        ensures
            info@ is None,
    {
        FileInfo { path: None }
    }

    /// Whether a file is named.
    pub fn has_path(&self) -> (b: bool)
        ensures
            b == self@ is Some,
    {
        self.path.is_some()
    }

    /// The name of the file.
    pub fn get_path(&self) -> (path: Option<&String>)
        ensures
            path is Some == self@ is Some,
            path matches Some(p) ==> self@ == Some(p@),
    {
        self.path.as_ref()
    }
}

/// What a save writes, and where.
pub struct FileImage {
    /// The name of the file to write.
    pub path: String,
    /// The bytes that the file is to hold.
    pub bytes: Vec<u8>,
}

/// A buffer as a value: its text, the name of its file, and whether the text
/// has changed since it was last stored.
pub struct BufferState {
    pub text: Seq<char>,
    pub path: Option<Seq<char>>,
    pub dirty: bool,
}

/// The text buffer.
pub struct BufferRope {
    text: Rope,
    file_info: FileInfo,
    dirty: bool,
}

impl View for BufferRope {
    type V = BufferState;

    closed spec fn view(&self) -> BufferState {
        BufferState { text: rope_text(self.text), path: self.file_info@, dirty: self.dirty }
    }
}

/// The offset at which an insertion at `at` takes place: the end of the text
/// for a location on the line behind the last content line, else the start of
/// the line plus the grapheme index.
pub open spec fn insertion_offset(text: Seq<char>, at: Location) -> nat {
    if at.line_idx == line_breaks(text) {
        text.len()
    } else {
        (line_start(text, at.line_idx as nat) + at.grapheme_idx) as nat
    }
}

/// Whether a character can be inserted at `at`: the line is a content line or
/// the one behind the last, and the offset lies within the text or at its end.
pub open spec fn can_insert(text: Seq<char>, at: Location) -> bool {
    at.line_idx <= line_breaks(text) && insertion_offset(text, at) <= text.len()
}

/// The offset of the character that a deletion at `at` removes.
pub open spec fn deletion_offset(text: Seq<char>, at: Location) -> nat {
    (line_start(text, at.line_idx as nat) + at.grapheme_idx) as nat
}

/// Whether `at` addresses a character that can be deleted.
pub open spec fn can_delete(text: Seq<char>, at: Location) -> bool {
    at.line_idx <= line_breaks(text) && deletion_offset(text, at) < text.len()
}

impl BufferRope {
    /// The buffer of a file: `bytes` is what the file of name `file_name`
    /// holds. The bytes must be valid UTF-8; the buffer then holds the text
    /// that they encode, and is not dirty.
    pub fn load(file_name: &str, bytes: &[u8]) -> (result: Result<BufferRope, IoError>)
        ensures
            result is Ok <==> valid_utf8(bytes@),
            result matches Ok(buffer) ==> buffer@ == (BufferState {
                text: decode_utf8(bytes@),
                path: Some(file_name@),
                dirty: false,
            }),
            result matches Err(e) ==> e == IoError::InvalidData,
    {
        match rope_from_bytes(bytes) {
            Ok(text) => Ok(BufferRope { text, file_info: FileInfo::from(file_name), dirty: false }),
            Err(_) => Err(IoError::InvalidData),
        }
    }

    /// Whether the text has changed since it was last stored.
    pub fn is_dirty(&self) -> (b: bool)
        ensures
            b == self@.dirty,
    {
        self.dirty
    }

    /// The file that the buffer belongs to.
    pub fn get_file_info(&self) -> (info: &FileInfo)
        ensures
            info@ == self@.path,
    {
        &self.file_info
    }

    /// Number of content lines: the lines that end in a line feed. The rope
    /// counts one line more, the stretch behind the last line feed.
    pub fn height(&self) -> (h: LineIdx)
        ensures
            h == line_breaks(self@.text),
    {
        self.text.len_lines() - 1
    }

    /// Whether the buffer belongs to a file.
    pub fn is_file_loaded(&self) -> (b: bool)
        ensures
            b == self@.path is Some,
    {
        self.file_info.has_path()
    }

    /// Whether the buffer holds no text.
    pub fn is_empty(&self) -> (b: bool)
        ensures
            b == (self@.text.len() == 0),
    {
        self.text.len_chars() == 0
    }

    /// What storing the buffer in the file of `file_info` writes: the UTF-8
    /// encoding of the whole text, under that file's name.
    pub fn save_to_file(&self, file_info: &FileInfo) -> (image: FileImage)
        requires
            file_info@ is Some,
        ensures
            Some(image.path@) == file_info@,
            image.bytes@ == encode_utf8(self@.text),
    {
        let mut bytes: Vec<u8> = Vec::new();
        rope_write_to(&self.text, &mut bytes);
        let path = file_info.get_path().unwrap().clone();
        assert(bytes@ =~= encode_utf8(self@.text));
        FileImage { path, bytes }
    }

    /// Records that the buffer was stored under `file_name`: the buffer now
    /// belongs to that file and is no longer dirty. To be called once the
    /// image that `save_to_file` gave for that file has been written.
    pub fn save_as(&mut self, file_name: &str)
        ensures
            final(self)@ == (BufferState {
                text: old(self)@.text,
                path: Some(file_name@),
                dirty: false,
            }),
    {
        self.file_info = FileInfo::from(file_name);
        self.dirty = false;
    }

    /// Records that the buffer was stored in its own file: it is no longer
    /// dirty. To be called once the image that `save_to_file` gave for the
    /// buffer's file has been written. A buffer without a file cannot be
    /// saved.
    pub fn save(&mut self)
        requires
            old(self)@.path is Some,
        ensures
            final(self)@ == (BufferState { dirty: false, ..old(self)@ }),
    {
        self.dirty = false;
    }

    /// Inserts one character at `at`. On the line behind the last content
    /// line the character goes to the end of the text.
    pub fn insert_char(&mut self, character: char, at: Location)
        requires
            can_insert(old(self)@.text, at),
        ensures
            final(self)@ == (BufferState {
                text: old(self)@.text.insert(
                    insertion_offset(old(self)@.text, at) as int,
                    character,
                ),
                dirty: true,
                ..old(self)@
            }),
    {
        let last_char = self.text.len_chars();
        if at.line_idx == self.height() {
            self.text.insert_char(last_char, character);
            self.dirty = true;
        } else {
            let char_index = self.text.line_to_char(at.line_idx);
            let start_idx = char_index + at.grapheme_idx;
            self.text.insert_char(start_idx, character);
            self.dirty = true;
        }
    }

    /// Splits the line at `at` in two by a line feed. On the line behind the
    /// last content line the line feed goes to the end of the text.
    pub fn insert_newline(&mut self, at: Location)
        requires
            can_insert(old(self)@.text, at),
        ensures
            final(self)@ == (BufferState {
                text: old(self)@.text.insert(
                    insertion_offset(old(self)@.text, at) as int,
                    LINE_FEED,
                ),
                dirty: true,
                ..old(self)@
            }),
    {
        self.insert_char(LINE_FEED, at);
    }

    /// Removes the character at `at`.
    pub fn delete(&mut self, at: Location)
        requires
            can_delete(old(self)@.text, at),
        ensures
            final(self)@ == (BufferState {
                text: old(self)@.text.remove(deletion_offset(old(self)@.text, at) as int),
                dirty: true,
                ..old(self)@
            }),
    {
        let last_char = self.text.len_chars();
        let char_index = self.text.line_to_char(at.line_idx);
        let start_idx = char_index + at.grapheme_idx;
        let ghost before = rope_text(self.text);
        rope_remove(&mut self.text, start_idx, start_idx + 1);
        self.dirty = true;
        assert(rope_text(self.text) =~= before.remove(start_idx as int));
    }

    /// Number of grapheme clusters of line `idx`, its line feed not counted;
    /// `0` for an index that is no content line.
    pub fn grapheme_count(&self, idx: LineIdx) -> (count: GraphemeIdx)
        ensures
            count == grapheme_count(self@.text, idx as nat),
    {
        if idx >= self.height() {
            return 0;
        }
        let len = self.text.len_chars();
        let start_idx = self.text.line_to_char(idx);
        let end_idx = if idx + 1 == self.height() {
            len
        } else {
            self.text.line_to_char(idx + 1)
        };
        proof {
            lemma_content_line(self@.text, idx as nat);
        }
        let last = end_idx - 1;
        let ghost text = self@.text;
        let mut count: usize = 0;
        let mut i = start_idx;
        while i < last
            invariant
                start_idx <= i <= last < len == text.len(),
                text == rope_text(self.text),
                count == cluster_count(text.subrange(start_idx as int, i as int)),
                count <= i - start_idx,
            decreases last - i,
        {
            let mark = is_mark_char(self.text.char(i));
            proof {
                let grown = text.subrange(start_idx as int, i + 1);
                assert(grown.drop_last() =~= text.subrange(start_idx as int, i as int));
                assert(grown[grown.len() - 1] == text[i as int]);
            }
            if i == start_idx || !mark {
                count += 1;
            }
            i += 1;
        }
        count
    }

    /// The characters of line `idx`, its line feed included.
    pub fn line_string(&self, idx: LineIdx) -> (line: String)
        requires
            idx <= line_breaks(self@.text),
        ensures
            line@ == line_text(self@.text, idx as nat),
    {
        let lines = self.text.len_lines();
        let start_idx = self.text.line_to_char(idx);
        let end_idx = if idx + 1 == lines - 1 {
            self.text.len_chars()
        } else {
            self.text.line_to_char(idx + 1)
        };
        proof {
            lemma_line_start_monotone(self@.text, idx as nat, (idx + 1) as nat);
            lemma_line_start_bounded(self@.text, (idx + 1) as nat);
            lemma_line_start_bounded(self@.text, idx as nat);
        }
        rope_slice_to_string(&self.text, start_idx, end_idx)
    }
}

/// The annotations that a highlighter keeps for a line; none where it keeps
/// nothing.
pub open spec fn kept_annotations<H: SyntaxHighlighter>(highlighter: &H, idx: LineIdx) -> Seq<
    Annotation,
> {
    match highlighter.cached(idx) {
        Some(annotations) => annotations,
        None => Seq::empty(),
    }
}

impl BufferRope {
    /// Has `highlighter` compute and keep the annotations of line `idx`: it is
    /// handed the characters of the line, the line feed included.
    pub fn highlight<H: SyntaxHighlighter>(&self, idx: LineIdx, highlighter: &mut H)
        requires
            idx <= line_breaks(self@.text),
        ensures
            H::highlighted(
                *old(highlighter),
                *final(highlighter),
                idx,
                line_text(self@.text, idx as nat),
            ),
            final(highlighter).cached(idx) is Some,
    {
        let line = self.line_string(idx);
        highlighter.highlight_string(idx, line.as_str());
    }

    /// What the window of the columns in `range` shows of line `line_idx`,
    /// with the annotations that `highlighter` keeps for the line; `None` for
    /// an index that is no content line.
    pub fn get_highlighted_substring<H: SyntaxHighlighter>(
        &self,
        line_idx: LineIdx,
        range: Range<GraphemeIdx>,
        highlighter: &H,
    ) -> (result: Option<AnnotatedString>)
        ensures
            result is Some <==> line_idx < line_breaks(self@.text),
            result matches Some(shown) ==> shown@ == visible_substr(
                line_text(self@.text, line_idx as nat),
                range.start as int,
                range.end as int,
                kept_annotations(highlighter, line_idx),
            ),
    {
        if line_idx >= self.height() {
            return None;
        }
        let line_str = self.line_string(line_idx);
        let annotations = highlighter.get_annotations(line_idx);
        Some(self.get_annotated_visible_substr(line_str.as_str(), range, annotations))
    }

    /// What the window of the columns in `range` shows of the line
    /// `line_str` with the given annotations.
    pub fn get_annotated_visible_substr(
        &self,
        line_str: &str,
        range: Range<ColIdx>,
        annotations: Option<&Vec<Annotation>>,
    ) -> (result: AnnotatedString)
        ensures
            result@ == visible_substr(
                line_str@,
                range.start as int,
                range.end as int,
                given(annotations),
            ),
    {
        Line::from(line_str).get_annotated_visible_substr(range, annotations)
    }

    /// The column at which the grapheme cluster at offset `until` of line
    /// `idx` starts. An index that is no content line has no graphemes, and
    /// an offset behind the line counts as its end.
    pub fn width_until(&self, idx: LineIdx, until: GraphemeIdx) -> (width: GraphemeIdx)
        ensures
            idx >= line_breaks(self@.text) ==> width == 0,
            idx < line_breaks(self@.text) ==> width == vstd::math::min(
                column_at(
                    line_text(self@.text, idx as nat),
                    vstd::math::min(until as int, line_text(self@.text, idx as nat).len() as int),
                ),
                usize::MAX as int,
            ),
    {
        if idx >= self.height() {
            return 0;
        }
        let line_str = self.line_string(idx);
        Line::from(line_str.as_str()).width_until(until)
    }
}

/// Whether an edit can be made at `at`: an insertion where a character can be
/// inserted, a deletion where `at` addresses a character, and a deletion
/// backward where a character stands just before `at`.
pub open spec fn edit_applies(text: Seq<char>, edit: Edit, at: Location) -> bool {
    match edit {
        Edit::Insert(_) => can_insert(text, at),
        Edit::InsertNewline => can_insert(text, at),
        Edit::Delete => can_delete(text, at),
        Edit::DeleteBackward => at.line_idx <= line_breaks(text) && 0 < deletion_offset(text, at)
            <= text.len(),
    }
}

/// The text after an edit at `at`.
pub open spec fn edited_text(text: Seq<char>, edit: Edit, at: Location) -> Seq<char> {
    match edit {
        Edit::Insert(character) => text.insert(insertion_offset(text, at) as int, character),
        Edit::InsertNewline => text.insert(insertion_offset(text, at) as int, LINE_FEED),
        Edit::Delete => text.remove(deletion_offset(text, at) as int),
        Edit::DeleteBackward => text.remove(deletion_offset(text, at) - 1),
    }
}

impl BufferRope {
    /// Whether a character can be inserted at `at`.
    pub fn can_insert_at(&self, at: Location) -> (possible: bool)
        ensures
            possible == can_insert(self@.text, at),
    {
        let len = self.text.len_chars();
        let height = self.height();
        if at.line_idx > height {
            false
        } else if at.line_idx == height {
            true
        } else {
            match self.text.line_to_char(at.line_idx).checked_add(at.grapheme_idx) {
                Some(offset) => offset <= len,
                None => false,
            }
        }
    }

    /// Whether `at` addresses a character that can be deleted.
    pub fn can_delete_at(&self, at: Location) -> (possible: bool)
        ensures
            possible == can_delete(self@.text, at),
    {
        let len = self.text.len_chars();
        if at.line_idx > self.height() {
            false
        } else {
            match self.text.line_to_char(at.line_idx).checked_add(at.grapheme_idx) {
                Some(offset) => offset < len,
                None => false,
            }
        }
    }

    /// Makes an edit at `at`, where it can be made there: an insertion goes
    /// to `insert_char` or `insert_newline`, a deletion to `delete`, and a
    /// deletion backward removes the character just before `at`. Where the
    /// edit cannot be made at `at`, the buffer stays as it is.
    pub fn apply_edit(&mut self, edit: Edit, at: Location) -> (applied: bool)
        ensures
            applied == edit_applies(old(self)@.text, edit, at),
            applied ==> final(self)@ == (BufferState {
                text: edited_text(old(self)@.text, edit, at),
                dirty: true,
                ..old(self)@
            }),
            !applied ==> final(self)@ == old(self)@,
    {
        match edit {
            Edit::Insert(character) => {
                if self.can_insert_at(at) {
                    self.insert_char(character, at);
                    true
                } else {
                    false
                }
            },
            Edit::InsertNewline => {
                if self.can_insert_at(at) {
                    self.insert_newline(at);
                    true
                } else {
                    false
                }
            },
            Edit::Delete => {
                if self.can_delete_at(at) {
                    self.delete(at);
                    true
                } else {
                    false
                }
            },
            Edit::DeleteBackward => {
                let len = self.text.len_chars();
                if at.line_idx > self.height() {
                    return false;
                }
                match self.text.line_to_char(at.line_idx).checked_add(at.grapheme_idx) {
                    Some(offset) => {
                        if 0 < offset && offset <= len {
                            let ghost before = rope_text(self.text);
                            rope_remove(&mut self.text, offset - 1, offset);
                            self.dirty = true;
                            assert(rope_text(self.text) =~= before.remove(offset - 1));
                            true
                        } else {
                            false
                        }
                    },
                    None => false,
                }
            },
        }
    }

    /// The offset that `at` stands for in a search.
    fn offset_of(&self, at: Location) -> (offset: usize)
        ensures
            offset == search_offset(self@.text, at),
            offset <= self@.text.len(),
    {
        let len = self.text.len_chars();
        if at.line_idx > self.height() {
            return len;
        }
        let start = self.text.line_to_char(at.line_idx);
        match start.checked_add(at.grapheme_idx) {
            Some(offset) => if offset > len {
                len
            } else {
                offset
            },
            None => len,
        }
    }

    /// The location of an offset.
    fn location_at(&self, offset: usize) -> (at: Location)
        requires
            offset <= self@.text.len(),
        ensures
            at == location_of(self@.text, offset as int),
    {
        proof {
            lemma_line_of_offset(self@.text, offset as int);
        }
        let line_idx = self.text.char_to_line(offset);
        let start = self.text.line_to_char(line_idx);
        Location { line_idx, grapheme_idx: offset - start }
    }

    /// Whether `query` stands in the text at offset `pos`.
    fn matches_at(&self, query: &Vec<char>, pos: usize) -> (found: bool)
        requires
            pos + query@.len() <= self@.text.len(),
        ensures
            found == occurs_at(self@.text, query@, pos as int),
    {
        let ghost text = self@.text;
        let len = self.text.len_chars();
        let mut i: usize = 0;
        while i < query.len()
            invariant
                i <= query@.len(),
                pos + query@.len() <= text.len() == len,
                text == rope_text(self.text),
                forall|j: int| 0 <= j < i ==> text[pos + j] == query@[j],
            decreases query@.len() - i,
        {
            if self.text.char(pos + i) != query[i] {
                proof {
                    let stretch = text.subrange(pos as int, pos + query@.len());
                    assert(stretch[i as int] == text[pos + i]);
                }
                return false;
            }
            i += 1;
        }
        assert(text.subrange(pos as int, pos + query@.len()) =~= query@);
        true
    }

    /// Finds the first place at or behind `from` where `query` stands in the
    /// text. The search stops at the end of the text; an empty query is found
    /// nowhere.
    pub fn search_forward(&self, query: &str, from: Location) -> (result: Option<Location>)
        ensures
            result matches Some(at) ==> query@.len() > 0 && exists|pos: int|
                is_first_occurrence(
                    self@.text,
                    query@,
                    search_offset(self@.text, from) as int,
                    pos,
                ) && at == location_of(self@.text, pos),
            result is None ==> query@.len() == 0 || forall|pos: int|
                search_offset(self@.text, from) <= pos ==> !occurs_at(self@.text, query@, pos),
    {
        let wanted = chars_of(query);
        let len = self.text.len_chars();
        let first = self.offset_of(from);
        if wanted.len() == 0 || wanted.len() > len {
            return None;
        }
        let last = len - wanted.len();
        let mut pos = first;
        while pos <= last
            invariant
                first <= pos,
                first == search_offset(self@.text, from),
                last + wanted@.len() == len == self@.text.len(),
                wanted@ == query@,
                wanted@.len() > 0,
                forall|p: int| first <= p < pos ==> !occurs_at(self@.text, query@, p),
            decreases last + 1 - pos,
        {
            if self.matches_at(&wanted, pos) {
                let at = self.location_at(pos);
                assert(is_first_occurrence(self@.text, query@, first as int, pos as int));
                return Some(at);
            }
            pos += 1;
        }
        None
    }

    /// Finds the last place where `query` stands in the text and ends at or
    /// before `from`. The search stops at the start of the text; an empty
    /// query is found nowhere.
    pub fn search_backward(&self, query: &str, from: Location) -> (result: Option<Location>)
        ensures
            result matches Some(at) ==> query@.len() > 0 && exists|pos: int|
                is_last_occurrence(
                    self@.text,
                    query@,
                    search_offset(self@.text, from) as int,
                    pos,
                ) && at == location_of(self@.text, pos),
            result is None ==> query@.len() == 0 || forall|pos: int|
                pos + query@.len() <= search_offset(self@.text, from) ==> !occurs_at(
                    self@.text,
                    query@,
                    pos,
                ),
    {
        let wanted = chars_of(query);
        let until = self.offset_of(from);
        if wanted.len() == 0 || wanted.len() > until {
            return None;
        }
        let mut pos = until - wanted.len();
        loop
            invariant
                pos + wanted@.len() <= until <= self@.text.len(),
                until == search_offset(self@.text, from),
                wanted@ == query@,
                wanted@.len() > 0,
                forall|p: int|
                    pos < p && p + query@.len() <= until ==> !occurs_at(self@.text, query@, p),
            decreases pos,
        {
            if self.matches_at(&wanted, pos) {
                let at = self.location_at(pos);
                assert(is_last_occurrence(self@.text, query@, until as int, pos as int));
                return Some(at);
            }
            if pos == 0 {
                return None;
            }
            pos -= 1;
        }
    }
}

impl Default for BufferRope {
    /// An empty buffer that belongs to no file.
    fn default() -> (buffer: BufferRope)
        ensures
            buffer@ == (BufferState { text: Seq::empty(), path: None, dirty: false }),
    {
        BufferRope { text: Rope::new(), file_info: FileInfo::none(), dirty: false }
    }
}

/// Whether `at` is a position of the cursor in the text: on a content line or
/// on the line behind the last one, and not behind the graphemes of its line.
pub open spec fn is_cursor_position(text: Seq<char>, at: Location) -> bool {
    at.line_idx <= line_breaks(text) && at.grapheme_idx <= grapheme_count(
        text,
        at.line_idx as nat,
    )
}

/// At every position of the cursor a character can be inserted, and on a
/// content line the character under the cursor can be deleted.
pub proof fn lemma_cursor_position_accepts_edits(text: Seq<char>, at: Location)
    requires
        is_cursor_position(text, at),
    ensures
        can_insert(text, at),
        at.line_idx < line_breaks(text) ==> can_delete(text, at),
{
    if at.line_idx < line_breaks(text) {
        lemma_content_line(text, at.line_idx as nat);
        lemma_cluster_count_bounds(line_graphemes(text, at.line_idx as nat));
    }
}

/// A file made of `n` lines, each ended by a line feed, loads, and the buffer
/// that holds it has the height `n`: the bytes of such a file are valid
/// UTF-8, and the text that they encode has `n` content lines.
pub proof fn lemma_loaded_height_is_line_count(lines: Seq<Seq<char>>)
    requires
        forall|i: int| 0 <= i < lines.len() ==> is_single_line(#[trigger] lines[i]),
    ensures
        valid_utf8(encode_utf8(join_lines(lines))),
        line_breaks(decode_utf8(encode_utf8(join_lines(lines)))) == lines.len(),
{
    vstd::utf8::encode_utf8_valid_utf8(join_lines(lines));
    vstd::utf8::encode_utf8_decode_utf8(join_lines(lines));
    lemma_height_of_terminated_lines(lines);
}

/// A file that is loaded and stored again without a change in between holds
/// the same bytes as before: the bytes that a save writes are the UTF-8
/// encoding of the text, and the text of a loaded buffer is what the file's
/// bytes encode. The buffer is not dirty after the load, and a save leaves it
/// so.
pub proof fn lemma_load_then_save_keeps_bytes(bytes: Seq<u8>)
    requires
        valid_utf8(bytes),
    ensures
        encode_utf8(decode_utf8(bytes)) == bytes,
{
    vstd::utf8::decode_utf8_encode_utf8(bytes);
}

/// Inserting a character at a location and then deleting at the same location
/// gives the text back. On the line behind the last content line an inserted
/// character goes to the end of the text, so there this holds only of the
/// location that stands for the end of the text.
pub proof fn lemma_insert_then_delete_restores(text: Seq<char>, character: char, at: Location)
    requires
        can_insert(text, at),
        at.line_idx == line_breaks(text) ==> line_start(text, at.line_idx as nat)
            + at.grapheme_idx == text.len(),
    ensures
        can_delete(text.insert(insertion_offset(text, at) as int, character), at),
        text.insert(insertion_offset(text, at) as int, character).remove(
            deletion_offset(text.insert(insertion_offset(text, at) as int, character), at) as int,
        ) == text,
{
    let offset = insertion_offset(text, at) as int;
    let changed = text.insert(offset, character);
    lemma_line_start_insert(text, at.line_idx as nat, offset, character);
    lemma_line_breaks_insert(text, offset, character);
    assert(deletion_offset(changed, at) == offset);
    assert(changed.remove(offset) =~= text);
}

} // verus!
