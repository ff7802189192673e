//! The rope that stores the document, and what the buffer relies on of it.
//!
//! The rope is built without its optional line-break features, so the only
//! line break it recognises is the line feed.

use ropey::Rope;
use vstd::prelude::*;
use vstd::utf8::{decode_utf8, encode_utf8, valid_utf8};
use crate::lines::{line_breaks, line_start};

verus! {

/// `ropey::Rope`, known to the library only through `rope_text`.
#[verifier::external_type_specification]
#[verifier::external_body]
pub struct ExRope(Rope);

/// `std::io::Error`, the error of `Rope::from_reader`; nothing is known of
/// its content.
#[verifier::external_type_specification]
#[verifier::external_body]
pub struct ExIoError(std::io::Error);

/// The characters that a rope holds, in order.
pub uninterp spec fn rope_text(rope: Rope) -> Seq<char>;

/// `Rope::new` gives a rope without text.
pub assume_specification[ Rope::new ]() -> (rope: Rope)
    ensures
        rope_text(rope) == Seq::<char>::empty(),
;

/// `Rope::len_chars` counts the characters of the rope.
pub assume_specification[ Rope::len_chars ](rope: &Rope) -> (n: usize)
    ensures
        n == rope_text(*rope).len(),
;

/// `Rope::len_lines` is one more than the number of line breaks.
pub assume_specification[ Rope::len_lines ](rope: &Rope) -> (n: usize)
    ensures
        n == line_breaks(rope_text(*rope)) + 1,
;

/// `Rope::line_to_char` gives the offset of the first character of a line. It
/// accepts the index one past the last line and then gives the length of the
/// text; it panics on a larger index.
pub assume_specification[ Rope::line_to_char ](rope: &Rope, line_idx: usize) -> (offset: usize)
    requires
        line_idx <= line_breaks(rope_text(*rope)) + 1,
    ensures
        offset == line_start(rope_text(*rope), line_idx as nat),
;

/// `Rope::char_to_line` gives the index of the line that holds an offset: the
/// number of line breaks before it. It accepts the offset one past the end and
/// panics on a larger one.
pub assume_specification[ Rope::char_to_line ](rope: &Rope, char_idx: usize) -> (line: usize)
    requires
        char_idx <= rope_text(*rope).len(),
    ensures
        line == line_breaks(rope_text(*rope).take(char_idx as int)),
;

/// `Rope::char` gives the character at an offset, and panics on an offset
/// that is not below the length.
pub assume_specification[ Rope::char ](rope: &Rope, char_idx: usize) -> (c: char)
    requires
        char_idx < rope_text(*rope).len(),
    ensures
        c == rope_text(*rope)[char_idx as int],
;

/// `Rope::insert_char` puts one character in front of the character at an
/// offset, or at the end where the offset is the length, and panics on a
/// larger offset.
pub assume_specification[ Rope::insert_char ](rope: &mut Rope, char_idx: usize, ch: char)
    requires
        char_idx <= rope_text(*old(rope)).len(),
    ensures
        rope_text(*final(rope)) == rope_text(*old(rope)).insert(char_idx as int, ch),
;

/// `Rope::remove` takes the characters of a range of offsets out of the rope.
/// It panics where the range starts behind its end or ends behind the text.
#[verifier::external_body]
pub(crate) fn rope_remove(rope: &mut Rope, start: usize, end: usize)
    requires
        start <= end <= rope_text(*old(rope)).len(),
    ensures
        rope_text(*final(rope)) == rope_text(*old(rope)).subrange(0, start as int) + rope_text(
            *old(rope),
        ).subrange(end as int, rope_text(*old(rope)).len() as int),
{
    rope.remove(start..end)
}

/// `Rope::slice` followed by `to_string` copies the characters of a range of
/// offsets into a string. `slice` panics where the range starts behind its end
/// or ends behind the text.
#[verifier::external_body]
pub(crate) fn rope_slice_to_string(rope: &Rope, start: usize, end: usize) -> (s: String)
    requires
        start <= end <= rope_text(*rope).len(),
    ensures
        s@ == rope_text(*rope).subrange(start as int, end as int),
{
    rope.slice(start..end).to_string()
}

/// `Rope::from_reader` on a slice of bytes: reading from memory cannot fail,
/// so the result is an error exactly where the bytes are not valid UTF-8, and
/// otherwise a rope of the characters that they encode.
#[verifier::external_body]
pub(crate) fn rope_from_bytes(bytes: &[u8]) -> (result: Result<Rope, std::io::Error>)
    ensures
        result is Ok <==> valid_utf8(bytes@),
        result matches Ok(rope) ==> rope_text(rope) == decode_utf8(bytes@),
{
    Rope::from_reader(bytes)
}

/// `Rope::write_to` into a vector of bytes: writing into memory cannot fail,
/// and the vector grows by the UTF-8 encoding of the text.
#[verifier::external_body]
pub(crate) fn rope_write_to(rope: &Rope, out: &mut Vec<u8>)
    ensures
        final(out)@ == old(out)@ + encode_utf8(rope_text(*rope)),
{
    let _ = rope.write_to(out);
}

} // verus!
