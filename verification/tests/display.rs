use podocpodoc::annotatedstring::AnnotatedString;
use podocpodoc::annotation::{Annotation, AnnotationType};
use podocpodoc::highlighter::{SearchResultHighlighter, SyntaxHighlighter};
use podocpodoc::line::{GraphemeWidth, Line};

fn note(annotation_type: AnnotationType, start: usize, end: usize) -> Annotation {
    Annotation { annotation_type, start, end }
}

fn shown(text: &str, start: usize, end: usize) -> String {
    Line::from(text).get_annotated_visible_substr(start..end, None).to_string()
}

#[test]
fn a_wide_window_shows_the_whole_line() {
    assert_eq!(shown("hello world", 0, 11), "hello world");
    assert_eq!(shown("hello world", 0, 200), "hello world");
    assert_eq!(shown("a\u{4e2d}b", 0, 4), "a\u{4e2d}b");
    assert_eq!(shown("", 0, 5), "");
}

#[test]
fn a_wide_window_keeps_the_annotations() {
    let annotations = vec![
        note(AnnotationType::Keyword, 0, 2),
        note(AnnotationType::Number, 7, 9),
        note(AnnotationType::Comment, 3, 3),
    ];
    let result = Line::from("fn x() { 42 }").get_annotated_visible_substr(0..80, Some(&annotations));
    assert_eq!(result.to_string(), "fn x() { 42 }");
    assert_eq!(result.annotations(), &annotations);
}

#[test]
fn an_empty_window_shows_nothing() {
    let annotations = vec![note(AnnotationType::Keyword, 0, 2)];
    let line = Line::from("hello");
    let result = line.get_annotated_visible_substr(0..0, Some(&annotations));
    assert_eq!(result.to_string(), "");
    assert_eq!(result.len(), 0);
    assert!(result.annotations().is_empty());
    assert_eq!(line.get_annotated_visible_substr(3..3, None).to_string(), "");
    assert_eq!(line.get_annotated_visible_substr(4..2, None).to_string(), "");
}

#[test]
fn a_window_that_splits_a_wide_grapheme_at_its_end_shows_one_ellipsis() {
    assert_eq!(shown("ab\u{4e2d}cd", 0, 3), "ab\u{22ef}");
    assert_eq!(shown("\u{4e2d}\u{6587}", 0, 3), "\u{4e2d}\u{22ef}");
    assert_eq!(shown("\u{4e2d}\u{6587}", 0, 1), "\u{22ef}");
}

#[test]
fn a_window_that_splits_a_wide_grapheme_at_its_start_shows_one_ellipsis() {
    assert_eq!(shown("ab\u{4e2d}cd", 3, 6), "\u{22ef}cd");
    assert_eq!(shown("\u{4e2d}\u{6587}x", 1, 5), "\u{22ef}\u{6587}x");
    assert_eq!(shown("\u{4e2d}\u{6587}x", 1, 3), "\u{22ef}\u{22ef}");
}

#[test]
fn a_window_within_one_wide_grapheme_shows_one_ellipsis() {
    assert_eq!(shown("a\u{4e2d}b", 2, 3), "\u{22ef}");
}

#[test]
fn a_window_cuts_at_grapheme_edges_without_an_ellipsis() {
    assert_eq!(shown("hello world", 0, 5), "hello");
    assert_eq!(shown("hello world", 6, 11), "world");
    assert_eq!(shown("hello world", 3, 8), "lo wo");
    assert_eq!(shown("ab\u{4e2d}cd", 2, 4), "\u{4e2d}");
    assert_eq!(shown("ab\u{4e2d}cd", 0, 2), "ab");
    assert_eq!(shown("ab\u{4e2d}cd", 4, 9), "cd");
}

#[test]
fn a_window_behind_the_line_shows_nothing() {
    assert_eq!(shown("abc", 3, 10), "");
    assert_eq!(shown("abc", 7, 10), "");
}

#[test]
fn replacement_glyphs_are_drawn_within_the_window() {
    assert_eq!(shown("a\tb", 0, 3), "a b");
    assert_eq!(shown("a\u{7}b", 0, 3), "a\u{25af}b");
    assert_eq!(shown("a\u{a0}b", 0, 3), "a\u{2423}b");
    assert_eq!(shown("a\u{200b}b", 0, 3), "a\u{b7}b");
    assert_eq!(shown("\t\t\t", 1, 2), " ");
    assert_eq!(shown("x\u{3000}y", 0, 4), "x\u{2423}y");
}

#[test]
fn fragments_carry_width_and_replacement() {
    let line = Line::from("a\u{4e2d}\t\u{1f600}");
    assert_eq!(line.grapheme_count(), 4);
    let fragments = line.fragments();
    assert_eq!(fragments.len(), 4);
    assert_eq!((fragments[0].start, fragments[0].len), (0, 1));
    assert_eq!(fragments[0].rendered_width, GraphemeWidth::Half);
    assert_eq!(fragments[0].replacement, None);
    assert_eq!(fragments[1].rendered_width, GraphemeWidth::Full);
    assert_eq!(fragments[1].replacement, None);
    assert_eq!(fragments[2].rendered_width, GraphemeWidth::Half);
    assert_eq!(fragments[2].replacement, Some(' '));
    assert_eq!((fragments[3].start, fragments[3].len), (3, 1));
    assert_eq!(fragments[3].rendered_width, GraphemeWidth::Full);
    assert_eq!(line.grapheme_chars(), vec!['a', '\u{4e2d}', '\t', '\u{1f600}']);
}

#[test]
fn a_fragment_is_a_character_with_its_combining_marks() {
    let line = Line::from("e\u{301}x\u{308}\u{301}\u{4e2d}\u{fe0f}");
    assert_eq!(line.grapheme_count(), 3);
    let fragments = line.fragments();
    assert_eq!(fragments.len(), 3);
    assert_eq!((fragments[0].start, fragments[0].len), (0, 2));
    assert_eq!((fragments[1].start, fragments[1].len), (2, 3));
    assert_eq!((fragments[2].start, fragments[2].len), (5, 2));
    assert_eq!(fragments[2].rendered_width, GraphemeWidth::Full);
    assert_eq!(Line::from("\u{301}a").grapheme_count(), 2);
    assert_eq!(Line::from("").grapheme_count(), 0);
    assert_eq!(Line::from("\u{301}\u{302}").grapheme_count(), 1);
}

#[test]
fn a_cluster_takes_the_columns_of_its_first_character() {
    assert_eq!(shown("e\u{301}x", 0, 2), "e\u{301}x");
    assert_eq!(shown("e\u{301}x", 0, 1), "e\u{301}");
    assert_eq!(shown("e\u{301}x", 1, 2), "x");
    assert_eq!(shown("ae\u{301}\u{308}x", 1, 2), "e\u{301}\u{308}");
    let line = Line::from("e\u{301}x");
    assert_eq!(line.width_until(0), 0);
    assert_eq!(line.width_until(1), 0);
    assert_eq!(line.width_until(2), 1);
    assert_eq!(line.width_until(3), 2);
}

#[test]
fn a_cluster_that_is_cut_or_replaced_is_drawn_as_one_glyph() {
    assert_eq!(shown("\u{4e2d}\u{301}b", 0, 1), "\u{22ef}");
    assert_eq!(shown("\u{4e2d}\u{301}b", 1, 3), "\u{22ef}b");
    assert_eq!(shown("\u{4e2d}\u{301}b", 0, 3), "\u{4e2d}\u{301}b");
    assert_eq!(shown("a\t\u{301}b", 0, 3), "a b");
}

#[test]
fn annotations_follow_the_glyph_of_a_cluster() {
    let annotations = vec![
        note(AnnotationType::Match, 0, 2),
        note(AnnotationType::Char, 1, 2),
        note(AnnotationType::Type, 2, 3),
        note(AnnotationType::Comment, 1, 1),
    ];
    let result =
        Line::from("\t\u{301}x").get_annotated_visible_substr(0..5, Some(&annotations));
    assert_eq!(result.to_string(), " x");
    assert_eq!(
        result.annotations(),
        &vec![
            note(AnnotationType::Match, 0, 1),
            note(AnnotationType::Type, 1, 2),
            note(AnnotationType::Comment, 1, 1),
        ]
    );
    let whole = Line::from("e\u{301}x").get_annotated_visible_substr(0..5, Some(&annotations));
    assert_eq!(whole.to_string(), "e\u{301}x");
    assert_eq!(whole.annotations(), &annotations);
}

#[test]
fn line_width_until_adds_up_the_columns() {
    let line = Line::from("\u{4e2d}a\u{6587}");
    assert_eq!(line.width_until(0), 0);
    assert_eq!(line.width_until(1), 2);
    assert_eq!(line.width_until(2), 3);
    assert_eq!(line.width_until(3), 5);
    assert_eq!(line.width_until(usize::MAX), 5);
}

#[test]
fn annotations_follow_the_visible_text() {
    let annotations = vec![
        note(AnnotationType::Keyword, 0, 3),
        note(AnnotationType::Type, 4, 7),
        note(AnnotationType::String, 8, 11),
        note(AnnotationType::Comment, 2, 9),
    ];
    let result =
        Line::from("abc def ghi").get_annotated_visible_substr(2..9, Some(&annotations));
    assert_eq!(result.to_string(), "c def g");
    assert_eq!(
        result.annotations(),
        &vec![
            note(AnnotationType::Keyword, 0, 1),
            note(AnnotationType::Type, 2, 5),
            note(AnnotationType::String, 6, 7),
            note(AnnotationType::Comment, 0, 7),
        ]
    );
}

#[test]
fn annotations_outside_the_window_are_dropped() {
    let annotations = vec![
        note(AnnotationType::Keyword, 0, 2),
        note(AnnotationType::Type, 9, 11),
        note(AnnotationType::Number, 5, 6),
    ];
    let result =
        Line::from("abc def ghi").get_annotated_visible_substr(3..8, Some(&annotations));
    assert_eq!(result.to_string(), " def ");
    assert_eq!(result.annotations(), &vec![note(AnnotationType::Number, 2, 3)]);
}

#[test]
fn an_ellipsis_takes_the_annotations_of_the_grapheme_it_stands_for() {
    let annotations =
        vec![note(AnnotationType::Match, 2, 3), note(AnnotationType::Char, 0, 1)];
    let line = Line::from("ab\u{4e2d}cd");
    let right = line.get_annotated_visible_substr(0..3, Some(&annotations));
    assert_eq!(right.to_string(), "ab\u{22ef}");
    assert_eq!(
        right.annotations(),
        &vec![note(AnnotationType::Match, 2, 3), note(AnnotationType::Char, 0, 1)]
    );
    let left = line.get_annotated_visible_substr(3..6, Some(&annotations));
    assert_eq!(left.to_string(), "\u{22ef}cd");
    assert_eq!(left.annotations(), &vec![note(AnnotationType::Match, 0, 1)]);
}

#[test]
fn annotations_that_reach_behind_the_line_keep_their_length_there() {
    let annotations = vec![note(AnnotationType::Comment, 1, 400), note(AnnotationType::Type, 9, 12)];
    let result = Line::from("abcd").get_annotated_visible_substr(0..10, Some(&annotations));
    assert_eq!(result.to_string(), "abcd");
    assert_eq!(result.annotations(), &annotations);
    let cut = Line::from("abcd").get_annotated_visible_substr(0..2, Some(&annotations));
    assert_eq!(cut.to_string(), "ab");
    assert_eq!(
        cut.annotations(),
        &vec![note(AnnotationType::Comment, 1, 398), note(AnnotationType::Type, 7, 10)]
    );
}

#[test]
fn annotated_string_keeps_text_and_annotations() {
    let mut text = AnnotatedString::from("hello");
    assert_eq!(text.len(), 5);
    assert_eq!(text.to_string(), "hello");
    assert!(text.annotations().is_empty());
    text.add_annotation(AnnotationType::Keyword, 1, 3);
    text.add_annotation(AnnotationType::LineNumber, 0, 0);
    assert_eq!(
        text.annotations(),
        &vec![note(AnnotationType::Keyword, 1, 3), note(AnnotationType::LineNumber, 0, 0)]
    );
    let empty = AnnotatedString::default();
    assert_eq!(empty.len(), 0);
    assert_eq!(empty.to_string(), "");
    assert_eq!(AnnotatedString::from_chars(vec!['o', 'k']).to_string(), "ok");
}

#[test]
fn replace_moves_the_annotations_with_the_text() {
    let mut text = AnnotatedString::from("0123456789");
    text.add_annotation(AnnotationType::Keyword, 0, 2);
    text.add_annotation(AnnotationType::Type, 3, 6);
    text.add_annotation(AnnotationType::Number, 7, 9);
    text.add_annotation(AnnotationType::Comment, 4, 5);
    text.replace(3, 6, "x");
    assert_eq!(text.to_string(), "012x6789");
    assert_eq!(
        text.annotations(),
        &vec![
            note(AnnotationType::Keyword, 0, 2),
            note(AnnotationType::Type, 3, 4),
            note(AnnotationType::Number, 5, 7),
        ]
    );
}

#[test]
fn replace_by_a_longer_text_shifts_what_follows() {
    let mut text = AnnotatedString::from("abcdef");
    text.add_annotation(AnnotationType::Keyword, 1, 2);
    text.add_annotation(AnnotationType::Type, 4, 6);
    text.replace(2, 3, "XYZ");
    assert_eq!(text.to_string(), "abXYZdef");
    assert_eq!(
        text.annotations(),
        &vec![note(AnnotationType::Keyword, 1, 2), note(AnnotationType::Type, 6, 8)]
    );
}

#[test]
fn replace_with_a_start_behind_the_end_changes_nothing() {
    let mut text = AnnotatedString::from("abcdef");
    text.add_annotation(AnnotationType::Keyword, 1, 2);
    text.replace(5, 2, "XYZ");
    assert_eq!(text.to_string(), "abcdef");
    text.replace(9, 12, "XYZ");
    assert_eq!(text.to_string(), "abcdef");
    text.replace(4, 12, "!");
    assert_eq!(text.to_string(), "abcd!");
    assert_eq!(text.annotations(), &vec![note(AnnotationType::Keyword, 1, 2)]);
}

#[test]
fn truncation_cuts_text_and_annotations() {
    let mut text = AnnotatedString::from("0123456789");
    text.add_annotation(AnnotationType::Keyword, 0, 2);
    text.add_annotation(AnnotationType::Type, 3, 6);
    text.add_annotation(AnnotationType::Number, 7, 9);
    text.truncate_right_from(8);
    assert_eq!(text.to_string(), "01234567");
    assert_eq!(
        text.annotations(),
        &vec![
            note(AnnotationType::Keyword, 0, 2),
            note(AnnotationType::Type, 3, 6),
            note(AnnotationType::Number, 7, 8),
        ]
    );
    text.truncate_left_until(4);
    assert_eq!(text.to_string(), "4567");
    assert_eq!(
        text.annotations(),
        &vec![note(AnnotationType::Type, 0, 2), note(AnnotationType::Number, 3, 4)]
    );
}

#[test]
fn splice_keeps_annotations_that_were_cut_away_until_they_are_dropped() {
    let mut text = AnnotatedString::from("abcdef");
    text.add_annotation(AnnotationType::Keyword, 2, 4);
    text.splice(1, 5, &vec![]);
    assert_eq!(text.to_string(), "af");
    assert_eq!(text.annotations(), &vec![note(AnnotationType::Keyword, 1, 1)]);
    text.drop_cut_away(&vec![note(AnnotationType::Keyword, 2, 4)]);
    assert!(text.annotations().is_empty());
}

#[test]
fn an_annotation_that_covered_nothing_is_not_dropped() {
    let mut text = AnnotatedString::from("abcdef");
    text.add_annotation(AnnotationType::Keyword, 3, 3);
    text.add_annotation(AnnotationType::Type, 2, 4);
    text.replace(1, 5, "");
    assert_eq!(text.to_string(), "af");
    assert_eq!(text.annotations(), &vec![note(AnnotationType::Keyword, 1, 1)]);
    text.truncate_right_from(2);
    assert_eq!(text.annotations(), &vec![note(AnnotationType::Keyword, 1, 1)]);
    text.truncate_left_until(0);
    assert_eq!(text.to_string(), "af");
    assert_eq!(text.annotations(), &vec![note(AnnotationType::Keyword, 1, 1)]);
}

#[test]
fn the_search_highlighter_marks_every_place_of_the_word() {
    let mut highlighter = SearchResultHighlighter::new("ab");
    highlighter.highlight_string(3, "ab cab abab");
    assert_eq!(
        highlighter.get_annotations(3),
        Some(&vec![
            note(AnnotationType::Match, 0, 2),
            note(AnnotationType::Match, 4, 6),
            note(AnnotationType::Match, 7, 9),
            note(AnnotationType::Match, 9, 11),
        ])
    );
    assert_eq!(highlighter.get_annotations(2), None);
}

#[test]
fn the_search_highlighter_does_not_mark_overlapping_places() {
    let mut highlighter = SearchResultHighlighter::new("aa");
    highlighter.highlight_string(0, "aaaaa");
    assert_eq!(
        highlighter.get_annotations(0),
        Some(&vec![note(AnnotationType::Match, 0, 2), note(AnnotationType::Match, 2, 4)])
    );
}

#[test]
fn highlighting_again_gives_the_same_annotations() {
    let mut highlighter = SearchResultHighlighter::new("x");
    highlighter.highlight_string(1, "x-x");
    let first = highlighter.get_annotations(1).cloned();
    highlighter.highlight_string(1, "x-x");
    assert_eq!(highlighter.get_annotations(1).cloned(), first);
    highlighter.highlight_string(1, "none");
    assert_eq!(highlighter.get_annotations(1), Some(&vec![]));
}

#[test]
fn the_search_highlighter_takes_a_prepared_line() {
    let mut highlighter = SearchResultHighlighter::new("\u{4e2d}");
    highlighter.highlight(5, &Line::from("a\u{4e2d}b\u{4e2d}"));
    assert_eq!(
        highlighter.get_annotations(5),
        Some(&vec![note(AnnotationType::Match, 1, 2), note(AnnotationType::Match, 3, 4)])
    );
    let mut silent = SearchResultHighlighter::new("");
    silent.highlight_string(0, "anything");
    assert_eq!(silent.get_annotations(0), Some(&vec![]));
}
