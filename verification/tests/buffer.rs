use podocpodoc::annotation::{Annotation, AnnotationType};
use podocpodoc::buffer::{BufferRope, FileInfo, IoError};
use podocpodoc::command::edit::Edit;
use podocpodoc::highlighter::{SearchResultHighlighter, SyntaxHighlighter};
use podocpodoc::position::Location;

fn loaded(text: &str) -> BufferRope {
    match BufferRope::load("notes.txt", text.as_bytes()) {
        Ok(buffer) => buffer,
        Err(error) => panic!("the text did not load: {:?}", error),
    }
}

fn stored(buffer: &BufferRope) -> Vec<u8> {
    buffer.save_to_file(&FileInfo::from("out.txt")).bytes
}

fn at(line_idx: usize, grapheme_idx: usize) -> Location {
    Location { line_idx, grapheme_idx }
}

#[test]
fn height_counts_the_content_lines_of_a_loaded_file() {
    assert_eq!(loaded("abc\ndef\n").height(), 2);
    assert_eq!(loaded("one\n").height(), 1);
    assert_eq!(loaded("a\n\nb\n\n").height(), 4);
}

#[test]
fn height_leaves_out_the_stretch_behind_the_last_line_feed() {
    assert_eq!(loaded("abc\ndef").height(), 1);
    assert_eq!(loaded("abc").height(), 0);
    assert_eq!(loaded("").height(), 0);
}

#[test]
fn only_the_line_feed_breaks_a_line() {
    assert_eq!(loaded("a\rb\u{2028}c\u{b}d\n").height(), 1);
    assert_eq!(loaded("a\r\nb\r\n").height(), 2);
}

#[test]
fn load_sets_the_file_and_leaves_the_buffer_clean() {
    let buffer = loaded("abc\n");
    assert!(!buffer.is_dirty());
    assert!(buffer.is_file_loaded());
    assert!(!buffer.is_empty());
    assert_eq!(buffer.get_file_info().get_path(), Some(&String::from("notes.txt")));
    assert!(buffer.get_file_info().has_path());
}

#[test]
fn load_rejects_bytes_that_are_not_utf8() {
    let result = BufferRope::load("broken.bin", &[0x61, 0xff, 0x62]);
    assert!(matches!(result, Err(IoError::InvalidData)));
    let truncated = BufferRope::load("broken.bin", &[0xe2, 0x82]);
    assert!(matches!(truncated, Err(IoError::InvalidData)));
}

#[test]
fn load_decodes_utf8() {
    let buffer = loaded("gr\u{fc}n \u{4e2d}\n");
    assert_eq!(buffer.grapheme_count(0), 6);
    assert_eq!(buffer.line_string(0), "gr\u{fc}n \u{4e2d}\n");
}

#[test]
fn the_default_buffer_is_empty_and_has_no_file() {
    let buffer = BufferRope::default();
    assert!(buffer.is_empty());
    assert!(!buffer.is_dirty());
    assert!(!buffer.is_file_loaded());
    assert_eq!(buffer.height(), 0);
    assert_eq!(buffer.get_file_info().get_path(), None);
    assert!(!FileInfo::none().has_path());
}

#[test]
fn grapheme_count_leaves_out_the_line_feed() {
    let buffer = loaded("abc\n\nhello world\n");
    assert_eq!(buffer.grapheme_count(0), 3);
    assert_eq!(buffer.grapheme_count(1), 0);
    assert_eq!(buffer.grapheme_count(2), 11);
}

#[test]
fn grapheme_count_counts_clusters_not_characters() {
    let buffer = loaded("e\u{301}x\nplain\n\u{301}a\u{308}\u{301}\n");
    assert_eq!(buffer.grapheme_count(0), 2);
    assert_eq!(buffer.grapheme_count(1), 5);
    assert_eq!(buffer.grapheme_count(2), 2);
}

#[test]
fn grapheme_count_is_zero_behind_the_content_lines() {
    let buffer = loaded("abc\ndef\n");
    assert_eq!(buffer.grapheme_count(2), 0);
    assert_eq!(buffer.grapheme_count(3), 0);
    assert_eq!(buffer.grapheme_count(usize::MAX), 0);
    assert_eq!(BufferRope::default().grapheme_count(0), 0);
}

#[test]
fn the_last_content_line_reaches_to_the_end_of_the_text() {
    let buffer = loaded("ab\ncd");
    assert_eq!(buffer.height(), 1);
    assert_eq!(buffer.grapheme_count(0), 4);
    assert_eq!(buffer.line_string(0), "ab\ncd");
}

#[test]
fn load_then_save_keeps_the_bytes() {
    let bytes = "first line\nsecond \u{20ac} line\n\nlast\n".as_bytes();
    let mut buffer = match BufferRope::load("notes.txt", bytes) {
        Ok(buffer) => buffer,
        Err(error) => panic!("the text did not load: {:?}", error),
    };
    let image = buffer.save_to_file(buffer.get_file_info());
    assert_eq!(image.path, "notes.txt");
    assert_eq!(image.bytes, bytes);
    buffer.save();
    assert!(!buffer.is_dirty());
}

#[test]
fn save_clears_the_dirty_flag() {
    let mut buffer = loaded("abc\n");
    buffer.insert_char('x', at(0, 0));
    assert!(buffer.is_dirty());
    assert_eq!(stored(&buffer), b"xabc\n");
    buffer.save();
    assert!(!buffer.is_dirty());
    assert_eq!(buffer.get_file_info().get_path(), Some(&String::from("notes.txt")));
}

#[test]
fn save_as_binds_the_buffer_to_the_new_file() {
    let mut buffer = BufferRope::default();
    buffer.insert_char('a', at(0, 0));
    let image = buffer.save_to_file(&FileInfo::from("new.txt"));
    assert_eq!(image.path, "new.txt");
    assert_eq!(image.bytes, b"a");
    buffer.save_as("new.txt");
    assert!(!buffer.is_dirty());
    assert!(buffer.is_file_loaded());
    assert_eq!(buffer.get_file_info().get_path(), Some(&String::from("new.txt")));
    assert_eq!(stored(&buffer), b"a");
}

#[test]
fn insert_char_goes_to_the_grapheme_of_its_line() {
    let mut buffer = loaded("abc\ndef\n");
    buffer.insert_char('X', at(1, 2));
    assert_eq!(stored(&buffer), b"abc\ndeXf\n");
    assert!(buffer.is_dirty());
    buffer.insert_char('Y', at(0, 0));
    assert_eq!(stored(&buffer), b"Yabc\ndeXf\n");
    buffer.insert_char('Z', at(0, 4));
    assert_eq!(stored(&buffer), b"YabcZ\ndeXf\n");
}

#[test]
fn insert_char_behind_the_last_line_appends() {
    let mut buffer = loaded("abc\ndef\n");
    buffer.insert_char('x', at(2, 0));
    assert_eq!(stored(&buffer), b"abc\ndef\nx");
    let mut open_ended = loaded("ab\ncd");
    open_ended.insert_char('!', at(1, 0));
    assert_eq!(stored(&open_ended), b"ab\ncd!");
}

#[test]
fn insert_newline_splits_the_line() {
    let mut buffer = loaded("abc\ndef\n");
    buffer.insert_newline(at(0, 1));
    assert_eq!(stored(&buffer), b"a\nbc\ndef\n");
    assert_eq!(buffer.height(), 3);
    assert_eq!(buffer.line_string(0), "a\n");
    assert_eq!(buffer.line_string(1), "bc\n");
    assert_eq!(buffer.line_string(2), "def\n");
    assert!(buffer.is_dirty());
}

#[test]
fn insert_newline_behind_the_last_line_appends() {
    let mut buffer = loaded("abc\n");
    buffer.insert_newline(at(1, 0));
    assert_eq!(stored(&buffer), b"abc\n\n");
    assert_eq!(buffer.height(), 2);
}

#[test]
fn delete_removes_one_character() {
    let mut buffer = loaded("abc\ndef\n");
    buffer.delete(at(1, 1));
    assert_eq!(stored(&buffer), b"abc\ndf\n");
    assert!(buffer.is_dirty());
    buffer.delete(at(0, 3));
    assert_eq!(stored(&buffer), b"abcdf\n");
    assert_eq!(buffer.height(), 1);
}

#[test]
fn insert_then_delete_restores_the_line() {
    let mut buffer = loaded("abc\ndef\n");
    buffer.insert_char('x', at(1, 1));
    assert_eq!(buffer.line_string(1), "dxef\n");
    buffer.delete(at(1, 1));
    assert_eq!(buffer.line_string(1), "def\n");
    assert_eq!(stored(&buffer), b"abc\ndef\n");
    buffer.insert_char('\n', at(0, 2));
    buffer.delete(at(0, 2));
    assert_eq!(stored(&buffer), b"abc\ndef\n");
    buffer.insert_char('y', at(2, 0));
    buffer.delete(at(2, 0));
    assert_eq!(stored(&buffer), b"abc\ndef\n");
}

#[test]
fn search_forward_reports_a_miss() {
    let buffer = loaded("abc\ndef\n");
    assert_eq!(buffer.search_forward("xyz", at(0, 0)), None);
    assert_eq!(buffer.search_forward("xyz", at(1, 2)), None);
    assert_eq!(buffer.search_forward("xyz", at(9, 9)), None);
    assert_eq!(buffer.search_forward("", at(0, 0)), None);
    assert_eq!(buffer.search_forward("abc\ndef\nghi", at(0, 0)), None);
    assert_eq!(BufferRope::default().search_forward("xyz", at(0, 0)), None);
}

#[test]
fn search_forward_finds_the_next_place() {
    let buffer = loaded("one two\nthree two\ntwo\n");
    assert_eq!(buffer.search_forward("two", at(0, 0)), Some(at(0, 4)));
    assert_eq!(buffer.search_forward("two", at(0, 4)), Some(at(0, 4)));
    assert_eq!(buffer.search_forward("two", at(0, 5)), Some(at(1, 6)));
    assert_eq!(buffer.search_forward("two", at(1, 7)), Some(at(2, 0)));
    assert_eq!(buffer.search_forward("o\nt", at(0, 0)), Some(at(0, 6)));
}

#[test]
fn search_forward_does_not_wrap_around() {
    let buffer = loaded("needle\nhay\nhay\n");
    assert_eq!(buffer.search_forward("needle", at(0, 1)), None);
    assert_eq!(buffer.search_forward("needle", at(2, 0)), None);
}

#[test]
fn search_is_sensitive_to_case() {
    let buffer = loaded("Word word\n");
    assert_eq!(buffer.search_forward("word", at(0, 0)), Some(at(0, 5)));
    assert_eq!(buffer.search_backward("Word", at(0, 9)), Some(at(0, 0)));
}

#[test]
fn search_backward_finds_the_previous_place() {
    let buffer = loaded("one two\nthree two\ntwo\n");
    assert_eq!(buffer.search_backward("two", at(2, 3)), Some(at(2, 0)));
    assert_eq!(buffer.search_backward("two", at(2, 2)), Some(at(1, 6)));
    assert_eq!(buffer.search_backward("two", at(1, 0)), Some(at(0, 4)));
    assert_eq!(buffer.search_backward("one", at(0, 3)), Some(at(0, 0)));
}

#[test]
fn search_backward_reports_a_miss() {
    let buffer = loaded("one two\nthree two\n");
    assert_eq!(buffer.search_backward("two", at(0, 6)), None);
    assert_eq!(buffer.search_backward("xyz", at(2, 0)), None);
    assert_eq!(buffer.search_backward("", at(2, 0)), None);
    assert_eq!(buffer.search_backward("one", at(0, 0)), None);
}

#[test]
fn a_match_behind_the_last_line_feed_lies_on_the_line_behind_the_content() {
    let buffer = loaded("ab\ncd");
    assert_eq!(buffer.search_forward("cd", at(0, 0)), Some(at(1, 0)));
    assert_eq!(buffer.search_forward("d", at(0, 0)), Some(at(1, 1)));
}

#[test]
fn width_until_adds_up_the_columns() {
    let buffer = loaded("a\u{4e2d}b\u{6587}c\n");
    assert_eq!(buffer.width_until(0, 0), 0);
    assert_eq!(buffer.width_until(0, 1), 1);
    assert_eq!(buffer.width_until(0, 2), 3);
    assert_eq!(buffer.width_until(0, 3), 4);
    assert_eq!(buffer.width_until(0, 4), 6);
    assert_eq!(buffer.width_until(0, 5), 7);
    assert_eq!(buffer.width_until(0, 6), 8);
    assert_eq!(buffer.width_until(0, 100), 8);
    assert_eq!(buffer.width_until(1, 3), 0);
}

#[test]
fn highlight_hands_the_line_to_the_highlighter() {
    let buffer = loaded("one two\nthree two\n");
    let mut highlighter = SearchResultHighlighter::new("two");
    assert_eq!(highlighter.get_annotations(1), None);
    buffer.highlight(1, &mut highlighter);
    let expected =
        vec![Annotation { annotation_type: AnnotationType::Match, start: 6, end: 9 }];
    assert_eq!(highlighter.get_annotations(1), Some(&expected));
    assert_eq!(highlighter.get_annotations(0), None);
}

#[test]
fn highlighted_substring_is_absent_behind_the_content_lines() {
    let buffer = loaded("abc\ndef\n");
    let highlighter = SearchResultHighlighter::new("b");
    assert!(buffer.get_highlighted_substring(2, 0..10, &highlighter).is_none());
    assert!(buffer.get_highlighted_substring(7, 0..10, &highlighter).is_none());
    assert!(buffer.get_highlighted_substring(1, 0..10, &highlighter).is_some());
}

#[test]
fn highlighted_substring_carries_the_kept_annotations() {
    let buffer = loaded("one two three\n");
    let mut highlighter = SearchResultHighlighter::new("two");
    buffer.highlight(0, &mut highlighter);
    let shown = match buffer.get_highlighted_substring(0, 2..9, &highlighter) {
        Some(shown) => shown,
        None => panic!("line 0 is a content line"),
    };
    assert_eq!(shown.to_string(), "e two t");
    assert_eq!(
        shown.annotations(),
        &vec![Annotation { annotation_type: AnnotationType::Match, start: 2, end: 5 }]
    );
}

#[test]
fn highlighted_substring_without_highlighting_has_no_annotations() {
    let buffer = loaded("one two three\n");
    let highlighter = SearchResultHighlighter::new("two");
    let shown = match buffer.get_highlighted_substring(0, 0..7, &highlighter) {
        Some(shown) => shown,
        None => panic!("line 0 is a content line"),
    };
    assert_eq!(shown.to_string(), "one two");
    assert!(shown.annotations().is_empty());
}

#[test]
fn the_line_feed_of_a_line_is_drawn_as_a_mark() {
    let buffer = loaded("ab\n");
    let highlighter = SearchResultHighlighter::new("");
    let shown = match buffer.get_highlighted_substring(0, 0..10, &highlighter) {
        Some(shown) => shown,
        None => panic!("line 0 is a content line"),
    };
    assert_eq!(shown.to_string(), "ab\u{25af}");
}

#[test]
fn annotated_visible_substr_of_a_given_line() {
    let buffer = BufferRope::default();
    let annotations =
        vec![Annotation { annotation_type: AnnotationType::Keyword, start: 0, end: 3 }];
    let shown = buffer.get_annotated_visible_substr("let x = 1;", 4..20, Some(&annotations));
    assert_eq!(shown.to_string(), "x = 1;");
    assert!(shown.annotations().is_empty());
    let shown = buffer.get_annotated_visible_substr("let x = 1;", 1..5, Some(&annotations));
    assert_eq!(shown.to_string(), "et x");
    assert_eq!(
        shown.annotations(),
        &vec![Annotation { annotation_type: AnnotationType::Keyword, start: 0, end: 2 }]
    );
}

#[test]
fn locations_are_checked_before_an_edit() {
    let buffer = loaded("abc\ndef\n");
    assert!(buffer.can_insert_at(at(0, 0)));
    assert!(buffer.can_insert_at(at(1, 3)));
    assert!(buffer.can_insert_at(at(1, 4)));
    assert!(!buffer.can_insert_at(at(1, 5)));
    assert!(buffer.can_insert_at(at(2, 0)));
    assert!(buffer.can_insert_at(at(2, 99)));
    assert!(!buffer.can_insert_at(at(3, 0)));
    assert!(!buffer.can_insert_at(at(0, usize::MAX)));
    assert!(buffer.can_delete_at(at(0, 0)));
    assert!(buffer.can_delete_at(at(1, 3)));
    assert!(!buffer.can_delete_at(at(1, 4)));
    assert!(!buffer.can_delete_at(at(2, 0)));
    assert!(!buffer.can_delete_at(at(3, 0)));
    assert!(!buffer.can_delete_at(at(1, usize::MAX)));
    assert!(BufferRope::default().can_insert_at(at(0, 0)));
    assert!(!BufferRope::default().can_delete_at(at(0, 0)));
}

#[test]
fn edits_are_routed_to_the_buffer() {
    let mut buffer = loaded("abc\ndef\n");
    assert!(buffer.apply_edit(Edit::Insert('x'), at(0, 1)));
    assert_eq!(stored(&buffer), b"axbc\ndef\n");
    assert!(buffer.apply_edit(Edit::InsertNewline, at(1, 1)));
    assert_eq!(stored(&buffer), b"axbc\nd\nef\n");
    assert!(buffer.apply_edit(Edit::Delete, at(0, 0)));
    assert_eq!(stored(&buffer), b"xbc\nd\nef\n");
    assert!(buffer.apply_edit(Edit::DeleteBackward, at(2, 1)));
    assert_eq!(stored(&buffer), b"xbc\nd\nf\n");
    assert!(buffer.apply_edit(Edit::DeleteBackward, at(1, 0)));
    assert_eq!(stored(&buffer), b"xbcd\nf\n");
    assert!(buffer.is_dirty());
}

#[test]
fn edits_that_cannot_be_made_leave_the_buffer_alone() {
    let mut buffer = loaded("abc\n");
    assert!(!buffer.apply_edit(Edit::Insert('x'), at(5, 0)));
    assert!(!buffer.apply_edit(Edit::InsertNewline, at(0, 9)));
    assert!(!buffer.apply_edit(Edit::Delete, at(1, 0)));
    assert!(!buffer.apply_edit(Edit::DeleteBackward, at(0, 0)));
    assert!(!buffer.apply_edit(Edit::DeleteBackward, at(0, 5)));
    assert!(!buffer.apply_edit(Edit::DeleteBackward, at(2, 0)));
    assert_eq!(stored(&buffer), b"abc\n");
    assert!(!buffer.is_dirty());
}
