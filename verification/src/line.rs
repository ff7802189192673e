//! A line prepared for display: its grapheme clusters with their widths and
//! replacement glyphs, and the part of it that a window of columns shows.
//!
//! Every cluster takes one or two columns. The columns of a line are counted
//! from zero; a cluster is shown where it reaches into the window. One that
//! the window cuts in two is shown as an ellipsis; one that lies within the
//! window is shown as its replacement glyph, where it has one, or as itself.
//!
//! The model speaks of the line character by character: every character has
//! the columns of its cluster, and offsets of the line count characters.

use std::ops::Range;
use vstd::prelude::*;
use crate::annotatedstring::{
    lemma_unmoved_survive, moved, moved_offset, spliced, surviving, AnnotatedString,
    AnnotatedText,
};
use crate::annotation::Annotation;
use crate::cluster::{cluster_count, is_mark, is_mark_char, starts_cluster};
use crate::position::{ColIdx, GraphemeIdx};
use crate::wording::chars_of;

verus! {

/// The glyph that stands for a cluster which the window cuts in two.
pub const ELLIPSIS: char = '\u{22ef}';

/// The glyph that stands for a control character.
pub const CONTROL_GLYPH: char = '\u{25af}';

/// The glyph that stands for a space other than the plain one.
pub const SPACE_GLYPH: char = '\u{2423}';

/// The glyph that stands for a character without width.
pub const ZERO_WIDTH_GLYPH: char = '\u{b7}';

/// How many columns a cluster takes.
#[derive(Clone, Copy, Debug, PartialEq, Eq, Structural)]
pub enum GraphemeWidth {
    /// One column.
    Half,
    /// Two columns.
    Full,
}

/// A grapheme cluster of a line with what the renderer needs of it.
#[derive(Clone, Copy, Debug)]
pub struct TextFragment {
    /// The offset of the cluster's first character in the line.
    pub start: usize,
    /// The number of characters of the cluster.
    pub len: usize,
    /// The columns it takes on the screen.
    pub rendered_width: GraphemeWidth,
    /// The glyph drawn in its place, if it is not drawn as itself.
    pub replacement: Option<char>,
}

/// A line: its characters, and its grapheme clusters as fragments.
pub struct Line {
    chars: Vec<char>,
    fragments: Vec<TextFragment>,
}

impl View for Line {
    type V = Seq<char>;

    closed spec fn view(&self) -> Seq<char> {
        self.chars@
    }
}

/// Whether `c` is a control character.
pub open spec fn is_control(c: char) -> bool {
    (c as u32) < 0x20 || (0x7f <= (c as u32) && (c as u32) <= 0x9f)
}

/// Whether `c` is a space other than the plain one and the tabulator.
pub open spec fn is_wide_space(c: char) -> bool {
    let v = c as u32;
    ||| v == 0xa0
    ||| v == 0x1680
    ||| 0x2000 <= v <= 0x200a
    ||| v == 0x2028
    ||| v == 0x2029
    ||| v == 0x202f
    ||| v == 0x205f
    ||| v == 0x3000
}

/// Whether `c` takes no column of its own.
pub open spec fn is_zero_width(c: char) -> bool {
    let v = c as u32;
    (0x200b <= v && v <= 0x200f) || v == 0x2060 || v == 0xfeff
}

/// Whether `c` takes two columns: the scripts of East Asia that are written
/// in full width, the full-width forms, and the pictographs.
pub open spec fn is_wide(c: char) -> bool {
    let v = c as u32;
    ||| 0x1100 <= v <= 0x115f
    ||| 0x2e80 <= v <= 0x303e
    ||| 0x3041 <= v <= 0x33ff
    ||| 0x3400 <= v <= 0x4dbf
    ||| 0x4e00 <= v <= 0x9fff
    ||| 0xa000 <= v <= 0xa4cf
    ||| 0xac00 <= v <= 0xd7a3
    ||| 0xf900 <= v <= 0xfaff
    ||| 0xfe30 <= v <= 0xfe6f
    ||| 0xff00 <= v <= 0xff60
    ||| 0xffe0 <= v <= 0xffe6
    ||| 0x1f300 <= v <= 0x1f64f
    ||| 0x1f900 <= v <= 0x1f9ff
    ||| 0x20000 <= v <= 0x3fffd
}

/// The glyph drawn in place of a cluster that begins with `c`, if the cluster
/// is not drawn as itself: a space for the tabulator, and a visible mark for
/// a control character, for a space other than the plain one, and for a
/// character without width.
pub open spec fn replacement_of(c: char) -> Option<char> {
    if c == '\t' {
        Some(' ')
    } else if is_control(c) {
        Some(CONTROL_GLYPH)
    } else if is_wide_space(c) {
        Some(SPACE_GLYPH)
    } else if is_zero_width(c) {
        Some(ZERO_WIDTH_GLYPH)
    } else {
        None
    }
}

/// The width of a cluster that begins with `c`.
pub open spec fn width_of(c: char) -> GraphemeWidth {
    if is_wide(c) {
        GraphemeWidth::Full
    } else {
        GraphemeWidth::Half
    }
}

/// Number of columns of a width.
pub open spec fn columns_of(width: GraphemeWidth) -> int {
    match width {
        GraphemeWidth::Half => 1,
        GraphemeWidth::Full => 2,
    }
}

/// Whether every character from `lo` up to `hi` is a combining mark.
pub open spec fn all_marks(text: Seq<char>, lo: int, hi: int) -> bool {
    forall|i: int| lo <= i < hi ==> is_mark(#[trigger] text[i])
}

/// Whether the characters from `b` up to `k` are one grapheme cluster of
/// `text`: a cluster starts at `b`, combining marks follow up to `k`, and
/// the text ends at `k` or goes on with another cluster.
pub open spec fn is_cluster(text: Seq<char>, b: int, k: int) -> bool {
    &&& 0 <= b < k <= text.len()
    &&& starts_cluster(text, b)
    &&& all_marks(text, b + 1, k)
    &&& (k == text.len() || !is_mark(text[k]))
}

/// Whether `frags` are the grapheme clusters of the first `n` characters of
/// `text`, in order, each with its width and replacement glyph.
pub open spec fn covers(text: Seq<char>, frags: Seq<TextFragment>, n: int) -> bool {
    &&& (frags.len() == 0) == (n == 0)
    &&& frags.len() > 0 ==> frags[0].start == 0 && frags.last().start + frags.last().len == n
    &&& forall|j: int|
        0 <= j < frags.len() ==> {
            let f = #[trigger] frags[j];
            &&& f.len >= 1
            &&& f.start + f.len <= n
            &&& starts_cluster(text, f.start as int)
            &&& all_marks(text, f.start + 1, f.start + f.len)
            &&& f.rendered_width == width_of(text[f.start as int])
            &&& f.replacement == replacement_of(text[f.start as int])
        }
    &&& forall|j: int|
        0 <= j < frags.len() - 1 ==> (#[trigger] frags[j + 1]).start == frags[j].start
            + frags[j].len
}

/// Whether `frags` are the grapheme clusters of `text`.
pub open spec fn is_fragmentation(text: Seq<char>, frags: Seq<TextFragment>) -> bool {
    covers(text, frags, text.len() as int)
}

/// The columns of the cluster that holds character `i`.
pub open spec fn span_width(text: Seq<char>, i: int) -> int
    decreases i,
{
    if i > 0 && is_mark(text[i]) {
        span_width(text, i - 1)
    } else {
        columns_of(width_of(text[i]))
    }
}

/// The replacement glyph of the cluster that holds character `i`, if it has
/// one.
pub open spec fn span_replacement(text: Seq<char>, i: int) -> Option<char>
    decreases i,
{
    if i > 0 && is_mark(text[i]) {
        span_replacement(text, i - 1)
    } else {
        replacement_of(text[i])
    }
}

/// The column at which the cluster that holds character `i` starts: the
/// columns of the clusters before it, added up. For the length of the text,
/// the columns of the whole line.
pub open spec fn column_at(text: Seq<char>, i: int) -> int
    decreases i,
{
    if i <= 0 {
        0
    } else if i < text.len() && is_mark(text[i]) {
        column_at(text, i - 1)
    } else {
        column_at(text, i - 1) + span_width(text, i - 1)
    }
}

/// The column behind the cluster that holds character `i`.
pub open spec fn span_end(text: Seq<char>, i: int) -> int {
    column_at(text, i) + span_width(text, i)
}

/// Whether the cluster that holds character `i` lies within the window of the
/// columns from `start` up to `end`.
pub open spec fn is_whole(text: Seq<char>, i: int, start: int, end: int) -> bool {
    start <= column_at(text, i) && span_end(text, i) <= end
}

/// Whether the window shows something for character `i`. The window shows a
/// cluster that begins before the window ends and ends behind the window's
/// start. Of a cluster that is drawn as itself every character is shown; of
/// one that is drawn as a single glyph, only the first.
pub open spec fn is_shown(text: Seq<char>, i: int, start: int, end: int) -> bool {
    &&& column_at(text, i) < end
    &&& start < span_end(text, i)
    &&& (starts_cluster(text, i) || (is_whole(text, i, start, end) && span_replacement(text, i)
        is None))
}

/// The glyph drawn for a character that the window shows: for the first
/// character of a cluster an ellipsis where the cluster reaches over either
/// edge of the window, else the replacement glyph, where the cluster has one;
/// in every other case the character itself.
pub open spec fn shown_glyph(text: Seq<char>, i: int, start: int, end: int) -> char {
    if !starts_cluster(text, i) {
        text[i]
    } else if !is_whole(text, i, start, end) {
        ELLIPSIS
    } else {
        match span_replacement(text, i) {
            Some(glyph) => glyph,
            None => text[i],
        }
    }
}

/// The glyphs drawn for the characters from `lo` up to `hi`, in order.
pub open spec fn visible_glyphs(text: Seq<char>, lo: int, hi: int, start: int, end: int) -> Seq<
    char,
>
    decreases hi - lo,
{
    if lo >= hi {
        Seq::empty()
    } else if is_shown(text, lo, start, end) {
        seq![shown_glyph(text, lo, start, end)] + visible_glyphs(text, lo + 1, hi, start, end)
    } else {
        visible_glyphs(text, lo + 1, hi, start, end)
    }
}

/// The length to which the stretch from offset `lo` up to offset `x` has
/// shrunk in the visible text: the number of glyphs drawn for its characters.
/// What of the stretch lies behind the line keeps its length.
pub open spec fn shrunk(text: Seq<char>, lo: int, x: int, start: int, end: int) -> int {
    if x <= text.len() {
        visible_glyphs(text, lo, x, start, end).len() as int
    } else {
        visible_glyphs(text, lo, text.len() as int, start, end).len() + (x - text.len())
    }
}

/// The offset in the visible text that corresponds to offset `x` of the line.
pub open spec fn visible_offset(text: Seq<char>, x: int, start: int, end: int) -> int {
    shrunk(text, 0, x, start, end)
}

/// An annotation of the line as an annotation of the visible text: it covers
/// the glyphs drawn for the characters that it covered.
pub open spec fn visible_annotation(text: Seq<char>, a: Annotation, start: int, end: int) -> Annotation {
    Annotation {
        annotation_type: a.annotation_type,
        start: visible_offset(text, a.start as int, start, end) as usize,
        end: visible_offset(text, a.end as int, start, end) as usize,
    }
}

/// What the window of the columns from `start` up to `end` shows of a line
/// with the given annotations: nothing where the window is empty, else the
/// visible glyphs with the annotations, of which those are dropped that the
/// window has cut away.
pub open spec fn visible_substr(
    text: Seq<char>,
    start: int,
    end: int,
    annotations: Seq<Annotation>,
) -> AnnotatedText {
    if start >= end {
        AnnotatedText { text: Seq::empty(), annotations: Seq::empty() }
    } else {
        AnnotatedText {
            text: visible_glyphs(text, 0, text.len() as int, start, end),
            annotations: surviving(
                annotations.map_values(|a: Annotation| visible_annotation(text, a, start, end)),
                annotations,
            ),
        }
    }
}

/// A cluster takes one or two columns.
pub proof fn lemma_span_width_bounds(text: Seq<char>, i: int)
    ensures
        1 <= span_width(text, i) <= 2,
    decreases i,
{
    if i > 0 && is_mark(text[i]) {
        lemma_span_width_bounds(text, i - 1);
    }
}

/// Columns do not fall from one character to the next.
pub proof fn lemma_column_monotone(text: Seq<char>, j: int, k: int)
    requires
        0 <= j <= k,
    ensures
        0 <= column_at(text, j) <= column_at(text, k) <= column_at(text, j) + 2 * (k - j),
    decreases k,
{
    if k == 0 {
    } else if j < k {
        lemma_column_monotone(text, j, k - 1);
        lemma_span_width_bounds(text, k - 1);
    } else {
        lemma_column_monotone(text, j - 1, k - 1);
        lemma_span_width_bounds(text, k - 1);
    }
}

/// The cluster of a character ends at or before the start of every cluster
/// that starts behind the character.
pub proof fn lemma_span_end_before(text: Seq<char>, j: int, k: int)
    requires
        0 <= j < k <= text.len(),
        k == text.len() || !is_mark(text[k]),
    ensures
        span_end(text, j) <= column_at(text, k),
    decreases k - j,
{
    if j + 1 < k {
        if is_mark(text[j + 1]) {
            lemma_span_end_before(text, j + 1, k);
        } else {
            lemma_span_end_before(text, j + 1, k);
            lemma_span_width_bounds(text, j + 1);
        }
    }
}

/// All characters of a cluster have the columns, the width and the
/// replacement glyph of its first character, and the next cluster starts at
/// the column behind it.
pub proof fn lemma_cluster_span(text: Seq<char>, b: int, k: int, j: int)
    requires
        is_cluster(text, b, k),
        b <= j < k,
    ensures
        column_at(text, j) == column_at(text, b),
        span_width(text, j) == columns_of(width_of(text[b])),
        span_replacement(text, j) == replacement_of(text[b]),
        column_at(text, k) == column_at(text, b) + columns_of(width_of(text[b])),
    decreases j - b,
{
    if j > b {
        assert(is_mark(text[j]));
        lemma_cluster_span(text, b, k, j - 1);
    }
    lemma_cluster_end(text, b, k, k - 1);
}

/// The last step of `lemma_cluster_span`: from a character of the cluster to
/// the start of the next cluster.
proof fn lemma_cluster_end(text: Seq<char>, b: int, k: int, j: int)
    requires
        is_cluster(text, b, k),
        b <= j < k,
    ensures
        column_at(text, j) == column_at(text, b),
        span_width(text, j) == columns_of(width_of(text[b])),
        j == k - 1 ==> column_at(text, k) == column_at(text, b) + columns_of(width_of(text[b])),
    decreases j - b,
{
    if j > b {
        assert(is_mark(text[j]));
        lemma_cluster_end(text, b, k, j - 1);
    }
}

/// No more glyphs are drawn than there are characters.
pub proof fn lemma_visible_len(text: Seq<char>, lo: int, hi: int, start: int, end: int)
    requires
        lo <= hi,
    ensures
        visible_glyphs(text, lo, hi, start, end).len() <= hi - lo,
    decreases hi - lo,
{
    if lo < hi {
        lemma_visible_len(text, lo + 1, hi, start, end);
    }
}

/// Nothing is drawn of the characters whose clusters begin at or behind the
/// window's end.
pub proof fn lemma_nothing_right(text: Seq<char>, lo: int, hi: int, start: int, end: int)
    requires
        0 <= lo,
        column_at(text, lo) >= end,
    ensures
        visible_glyphs(text, lo, hi, start, end) == Seq::<char>::empty(),
    decreases hi - lo,
{
    if lo < hi {
        lemma_column_monotone(text, lo, lo + 1);
        lemma_nothing_right(text, lo + 1, hi, start, end);
    }
}

/// Nothing is drawn of the characters before a cluster that starts at or
/// before the window's start.
pub proof fn lemma_nothing_left(text: Seq<char>, lo: int, x: int, k: int, start: int, end: int)
    requires
        0 <= lo,
        x <= k <= text.len(),
        k == text.len() || !is_mark(text[k]),
        column_at(text, k) <= start,
    ensures
        visible_glyphs(text, lo, x, start, end) == Seq::<char>::empty(),
    decreases x - lo,
{
    if lo < x {
        lemma_span_end_before(text, lo, k);
        lemma_nothing_left(text, lo + 1, x, k, start, end);
    }
}

/// The glyphs of a stretch of characters are those of its two parts, in
/// order.
pub proof fn lemma_visible_split(
    text: Seq<char>,
    lo: int,
    mid: int,
    hi: int,
    start: int,
    end: int,
)
    requires
        lo <= mid <= hi,
    ensures
        visible_glyphs(text, lo, hi, start, end) == visible_glyphs(text, lo, mid, start, end)
            + visible_glyphs(text, mid, hi, start, end),
    decreases mid - lo,
{
    if lo < mid {
        lemma_visible_split(text, lo + 1, mid, hi, start, end);
    }
    assert(visible_glyphs(text, lo, hi, start, end) =~= visible_glyphs(text, lo, mid, start, end)
        + visible_glyphs(text, mid, hi, start, end));
}

/// What is drawn for the characters of a cluster from its first up to `x`:
/// the characters themselves where the cluster lies within the window and has
/// no replacement glyph, one glyph where the window shows the cluster
/// otherwise, and nothing where the window does not show it.
pub open spec fn cluster_glyphs(text: Seq<char>, b: int, x: int, start: int, end: int) -> Seq<char> {
    if x <= b || !(column_at(text, b) < end && start < span_end(text, b)) {
        Seq::empty()
    } else if is_whole(text, b, start, end) && span_replacement(text, b) is None {
        text.subrange(b, x)
    } else {
        seq![shown_glyph(text, b, start, end)]
    }
}

/// The glyphs of the first characters of a cluster are `cluster_glyphs`.
pub proof fn lemma_cluster_glyphs(text: Seq<char>, b: int, k: int, x: int, start: int, end: int)
    requires
        is_cluster(text, b, k),
        b <= x <= k,
    ensures
        visible_glyphs(text, b, x, start, end) == cluster_glyphs(text, b, x, start, end),
    decreases x - b,
{
    if x > b {
        lemma_cluster_glyphs(text, b, k, x - 1, start, end);
        lemma_visible_split(text, b, x - 1, x, start, end);
        lemma_cluster_span(text, b, k, x - 1);
        lemma_cluster_span(text, b, k, b);
        assert(visible_glyphs(text, x, x, start, end) =~= Seq::<char>::empty());
        if x - 1 > b {
            assert(is_mark(text[x - 1]));
        }
        assert(visible_glyphs(text, b, x, start, end) =~= cluster_glyphs(text, b, x, start, end));
    }
}

} // verus!

verus! {

/// Whether the scan from the right, having come down to offset `k`, has not
/// yet reached the window: the cluster at `k` begins behind the window's end.
pub open spec fn unsettled(text: Seq<char>, k: int, end: int) -> bool {
    k < text.len() && column_at(text, k) > end
}

/// Where offset `x` of the line lies once the scan has come down to offset
/// `k`.
pub open spec fn scan_offset(text: Seq<char>, k: int, x: int, start: int, end: int) -> int {
    if unsettled(text, k, end) || x <= k {
        x
    } else {
        k + shrunk(text, k, x, start, end)
    }
}

/// The text once the scan has come down to offset `k`: the characters before
/// `k` as they are, and the glyphs drawn for the characters from `k` on.
pub open spec fn scan_text(text: Seq<char>, k: int, start: int, end: int) -> Seq<char> {
    if unsettled(text, k, end) {
        text
    } else {
        text.take(k) + visible_glyphs(text, k, text.len() as int, start, end)
    }
}

/// An annotation once the scan has come down to offset `k`.
pub open spec fn scan_annotation(text: Seq<char>, a: Annotation, k: int, start: int, end: int) -> Annotation {
    Annotation {
        annotation_type: a.annotation_type,
        start: scan_offset(text, k, a.start as int, start, end) as usize,
        end: scan_offset(text, k, a.end as int, start, end) as usize,
    }
}

/// What holds of the string under construction once the scan has come down
/// to offset `k`.
pub open spec fn scan_state(
    text: Seq<char>,
    anns: Seq<Annotation>,
    k: int,
    start: int,
    end: int,
    s: AnnotatedText,
) -> bool {
    &&& s.text == scan_text(text, k, start, end)
    &&& s.annotations.len() == anns.len()
    &&& forall|j: int|
        0 <= j < anns.len() ==> #[trigger] s.annotations[j] == scan_annotation(
            text,
            anns[j],
            k,
            start,
            end,
        )
}

/// What holds of the string under construction once the scan is over.
pub open spec fn final_state(
    text: Seq<char>,
    anns: Seq<Annotation>,
    start: int,
    end: int,
    s: AnnotatedText,
) -> bool {
    &&& s.text == visible_glyphs(text, 0, text.len() as int, start, end)
    &&& s.annotations.len() == anns.len()
    &&& forall|j: int|
        0 <= j < anns.len() ==> #[trigger] s.annotations[j] == visible_annotation(
            text,
            anns[j],
            start,
            end,
        )
}

/// A stretch shrinks to at most its length, and to the glyphs of its first
/// part followed by what the rest shrinks to.
proof fn lemma_shrunk(text: Seq<char>, lo: int, mid: int, x: int, start: int, end: int)
    requires
        0 <= lo <= mid <= x,
        mid <= text.len(),
    ensures
        0 <= shrunk(text, lo, x, start, end) <= x - lo,
        shrunk(text, lo, x, start, end) == visible_glyphs(text, lo, mid, start, end).len()
            + shrunk(text, mid, x, start, end),
{
    let n = text.len() as int;
    if x <= n {
        lemma_visible_len(text, lo, x, start, end);
        lemma_visible_split(text, lo, mid, x, start, end);
    } else {
        lemma_visible_len(text, lo, n, start, end);
        lemma_visible_split(text, lo, mid, n, start, end);
    }
}

/// During the scan an offset does not grow, and the end of the line lies at
/// the end of the string.
proof fn lemma_scan_offset_bounds(text: Seq<char>, k: int, x: int, start: int, end: int)
    requires
        0 <= k <= text.len(),
        0 <= x,
    ensures
        0 <= scan_offset(text, k, x, start, end) <= x,
        x >= k ==> scan_offset(text, k, x, start, end) >= k,
        x >= text.len() ==> scan_offset(text, k, x, start, end) == scan_text(
            text,
            k,
            start,
            end,
        ).len() + (x - text.len()),
{
    if x > k {
        lemma_shrunk(text, k, k, x, start, end);
    }
}

/// As long as no cluster has reached the window, the string is the line.
proof fn lemma_scan_untouched(
    text: Seq<char>,
    anns: Seq<Annotation>,
    k: int,
    start: int,
    end: int,
    s: AnnotatedText,
)
    requires
        1 <= k <= text.len(),
        scan_state(text, anns, k, start, end, s),
        column_at(text, k) > end,
    ensures
        s.text == text,
        forall|j: int| 0 <= j < anns.len() ==> #[trigger] s.annotations[j] == anns[j],
{
    if k == text.len() {
        assert(text.take(k) =~= text);
        assert(s.text =~= text);
    }
    assert forall|j: int| 0 <= j < anns.len() implies #[trigger] s.annotations[j] == anns[j] by {
        assert(s.annotations[j] == scan_annotation(text, anns[j], k, start, end));
        if k == text.len() {
            if anns[j].start > k {
                assert(visible_glyphs(text, k, k, start, end) =~= Seq::<char>::empty());
            }
            if anns[j].end > k {
                assert(visible_glyphs(text, k, k, start, end) =~= Seq::<char>::empty());
            }
        }
    }
}

/// A cluster that begins behind the window's end leaves the string as it is.
proof fn lemma_scan_skip(
    text: Seq<char>,
    anns: Seq<Annotation>,
    b: int,
    k: int,
    start: int,
    end: int,
    s: AnnotatedText,
)
    requires
        is_cluster(text, b, k),
        scan_state(text, anns, k, start, end, s),
        column_at(text, b) > end,
    ensures
        scan_state(text, anns, b, start, end, s),
{
    lemma_column_monotone(text, b, k);
    lemma_scan_untouched(text, anns, k, start, end, s);
    assert forall|j: int| 0 <= j < anns.len() implies #[trigger] s.annotations[j]
        == scan_annotation(text, anns[j], b, start, end) by {
        assert(s.annotations[j] == anns[j]);
    }
}

/// Where an offset lies after the cut at the window's end: `glyphs` is `1`
/// where the cluster from `b` up to `k` reaches over the end and becomes an
/// ellipsis, and `0` where it begins at the end and is dropped.
proof fn lemma_offset_cut(
    text: Seq<char>,
    b: int,
    k: int,
    x: int,
    start: int,
    end: int,
    glyphs: usize,
)
    requires
        is_cluster(text, b, k),
        text.len() <= usize::MAX,
        0 <= x <= usize::MAX,
        start < end,
        column_at(text, b) <= end < column_at(text, k),
        glyphs == if column_at(text, b) < end {
            1usize
        } else {
            0usize
        },
    ensures
        moved_offset(x as usize, b as usize, text.len() as usize, glyphs) == scan_offset(
            text,
            b,
            x,
            start,
            end,
        ),
        visible_glyphs(text, b, text.len() as int, start, end).len() == glyphs,
{
    let n = text.len() as int;
    lemma_cluster_span(text, b, k, b);
    lemma_nothing_right(text, k, n, start, end);
    lemma_visible_split(text, b, k, n, start, end);
    lemma_cluster_glyphs(text, b, k, k, start, end);
    if x > b {
        let xx = if x <= n {
            x
        } else {
            n
        };
        if xx <= k {
            lemma_cluster_glyphs(text, b, k, xx, start, end);
        } else {
            lemma_nothing_right(text, k, xx, start, end);
            lemma_visible_split(text, b, k, xx, start, end);
        }
    }
}

/// The cut at the window's end: the cluster that reaches over it, or begins
/// at it, goes with all that follows it, and an ellipsis stands for the first.
proof fn lemma_scan_cut(
    text: Seq<char>,
    anns: Seq<Annotation>,
    b: int,
    k: int,
    start: int,
    end: int,
    s: AnnotatedText,
    new_text: Seq<char>,
)
    requires
        is_cluster(text, b, k),
        text.len() <= usize::MAX,
        start < end,
        scan_state(text, anns, k, start, end, s),
        column_at(text, b) <= end < column_at(text, k),
        new_text == if column_at(text, b) < end {
            seq![ELLIPSIS]
        } else {
            Seq::<char>::empty()
        },
    ensures
        scan_state(
            text,
            anns,
            b,
            start,
            end,
            spliced(s, b as usize, text.len() as usize, new_text),
        ),
{
    let n = text.len() as int;
    let t = spliced(s, b as usize, n as usize, new_text);
    lemma_scan_untouched(text, anns, k, start, end, s);
    lemma_cluster_span(text, b, k, b);
    lemma_nothing_right(text, k, n, start, end);
    lemma_visible_split(text, b, k, n, start, end);
    lemma_cluster_glyphs(text, b, k, k, start, end);
    assert(t.text =~= scan_text(text, b, start, end));
    assert forall|j: int| 0 <= j < anns.len() implies #[trigger] t.annotations[j]
        == scan_annotation(text, anns[j], b, start, end) by {
        let a = anns[j];
        assert(s.annotations[j] == a);
        lemma_offset_cut(text, b, k, a.start as int, start, end, new_text.len() as usize);
        lemma_offset_cut(text, b, k, a.end as int, start, end, new_text.len() as usize);
    }
}

/// A cluster within the window leaves every offset where it is, if it is
/// drawn as itself, and draws the offsets within it together behind its
/// glyph, if it is drawn as one.
proof fn lemma_offset_inside(text: Seq<char>, b: int, k: int, x: int, start: int, end: int)
    requires
        is_cluster(text, b, k),
        text.len() <= usize::MAX,
        0 <= x <= usize::MAX,
        start < end,
        start <= column_at(text, b),
        column_at(text, k) <= end,
    ensures
        replacement_of(text[b]) is None ==> scan_offset(text, b, x, start, end) == scan_offset(
            text,
            k,
            x,
            start,
            end,
        ),
        replacement_of(text[b]) is Some ==> moved_offset(
            scan_offset(text, k, x, start, end) as usize,
            b as usize,
            k as usize,
            1,
        ) == scan_offset(text, b, x, start, end),
{
    lemma_cluster_span(text, b, k, b);
    lemma_column_monotone(text, b, k);
    lemma_scan_offset_bounds(text, k, x, start, end);
    lemma_cluster_glyphs(text, b, k, k, start, end);
    if x > b {
        if x <= k {
            lemma_cluster_glyphs(text, b, k, x, start, end);
        } else {
            lemma_shrunk(text, b, k, x, start, end);
            lemma_shrunk(text, k, k, x, start, end);
        }
    }
}

/// A cluster within the window is drawn as its replacement glyph, where it
/// has one, and as itself otherwise.
proof fn lemma_scan_inside(
    text: Seq<char>,
    anns: Seq<Annotation>,
    b: int,
    k: int,
    start: int,
    end: int,
    s: AnnotatedText,
)
    requires
        is_cluster(text, b, k),
        text.len() <= usize::MAX,
        start < end,
        scan_state(text, anns, k, start, end, s),
        start <= column_at(text, b),
        column_at(text, k) <= end,
    ensures
        replacement_of(text[b]) is None ==> scan_state(text, anns, b, start, end, s),
        replacement_of(text[b]) matches Some(glyph) ==> scan_state(
            text,
            anns,
            b,
            start,
            end,
            spliced(s, b as usize, k as usize, seq![glyph]),
        ),
{
    let n = text.len() as int;
    lemma_cluster_span(text, b, k, b);
    lemma_column_monotone(text, b, k);
    lemma_visible_len(text, k, n, start, end);
    lemma_visible_split(text, b, k, n, start, end);
    lemma_cluster_glyphs(text, b, k, k, start, end);
    let rest = visible_glyphs(text, k, n, start, end);
    assert(s.text == text.take(k) + rest);
    assert(text.take(k) =~= text.take(b) + text.subrange(b, k));
    match replacement_of(text[b]) {
        None => {
            assert(s.text =~= scan_text(text, b, start, end));
            assert forall|j: int| 0 <= j < anns.len() implies #[trigger] s.annotations[j]
                == scan_annotation(text, anns[j], b, start, end) by {
                let a = anns[j];
                assert(s.annotations[j] == scan_annotation(text, a, k, start, end));
                lemma_offset_inside(text, b, k, a.start as int, start, end);
                lemma_offset_inside(text, b, k, a.end as int, start, end);
            }
        },
        Some(glyph) => {
            let t = spliced(s, b as usize, k as usize, seq![glyph]);
            assert(t.text =~= scan_text(text, b, start, end));
            assert forall|j: int| 0 <= j < anns.len() implies #[trigger] t.annotations[j]
                == scan_annotation(text, anns[j], b, start, end) by {
                let a = anns[j];
                assert(s.annotations[j] == scan_annotation(text, a, k, start, end));
                lemma_offset_inside(text, b, k, a.start as int, start, end);
                lemma_offset_inside(text, b, k, a.end as int, start, end);
                lemma_scan_offset_bounds(text, k, a.start as int, start, end);
                lemma_scan_offset_bounds(text, k, a.end as int, start, end);
            }
        },
    }
}

/// Where an offset lies after the cut at the window's start, where the
/// cluster before `k` ends at or before the start and goes with all that
/// precedes it.
proof fn lemma_offset_drop_left(text: Seq<char>, k: int, x: int, start: int, end: int)
    requires
        1 <= k <= text.len() <= usize::MAX,
        k == text.len() || !is_mark(text[k]),
        0 <= x <= usize::MAX,
        0 <= start < end,
        column_at(text, k) <= start,
    ensures
        moved_offset(scan_offset(text, k, x, start, end) as usize, 0, k as usize, 0)
            == visible_offset(text, x, start, end),
{
    lemma_scan_offset_bounds(text, k, x, start, end);
    if x <= k {
        lemma_nothing_left(text, 0, x, k, start, end);
    } else {
        lemma_nothing_left(text, 0, k, k, start, end);
        lemma_shrunk(text, 0, k, x, start, end);
        lemma_shrunk(text, k, k, x, start, end);
    }
}

/// The cut at the window's start, where the cluster before `k` ends at or
/// before the start: it goes with all that precedes it, and the scan is over.
proof fn lemma_scan_drop_left(
    text: Seq<char>,
    anns: Seq<Annotation>,
    k: int,
    start: int,
    end: int,
    s: AnnotatedText,
)
    requires
        1 <= k <= text.len() <= usize::MAX,
        k == text.len() || !is_mark(text[k]),
        0 <= start < end,
        scan_state(text, anns, k, start, end, s),
        column_at(text, k) <= start,
    ensures
        final_state(text, anns, start, end, spliced(s, 0, k as usize, Seq::empty())),
{
    let n = text.len() as int;
    let t = spliced(s, 0, k as usize, Seq::empty());
    lemma_nothing_left(text, 0, k, k, start, end);
    lemma_visible_split(text, 0, k, n, start, end);
    assert(s.text == text.take(k) + visible_glyphs(text, k, n, start, end));
    assert(t.text =~= visible_glyphs(text, 0, n, start, end));
    assert forall|j: int| 0 <= j < anns.len() implies #[trigger] t.annotations[j]
        == visible_annotation(text, anns[j], start, end) by {
        let a = anns[j];
        assert(s.annotations[j] == scan_annotation(text, a, k, start, end));
        lemma_offset_drop_left(text, k, a.start as int, start, end);
        lemma_offset_drop_left(text, k, a.end as int, start, end);
        lemma_scan_offset_bounds(text, k, a.start as int, start, end);
        lemma_scan_offset_bounds(text, k, a.end as int, start, end);
    }
}

/// Where an offset lies after the cut at the window's start, where the
/// cluster from `b` up to `k` reaches over the start and becomes an ellipsis.
proof fn lemma_offset_cut_left(text: Seq<char>, b: int, k: int, x: int, start: int, end: int)
    requires
        is_cluster(text, b, k),
        text.len() <= usize::MAX,
        0 <= x <= usize::MAX,
        0 <= start < end,
        column_at(text, b) < start < column_at(text, k) <= end,
    ensures
        moved_offset(
            moved_offset(scan_offset(text, k, x, start, end) as usize, 0, b as usize, 0),
            0,
            (k - b) as usize,
            1,
        ) == visible_offset(text, x, start, end),
{
    lemma_cluster_span(text, b, k, b);
    lemma_scan_offset_bounds(text, k, x, start, end);
    lemma_cluster_glyphs(text, b, k, k, start, end);
    if x <= b {
        lemma_nothing_left(text, 0, x, b, start, end);
    } else {
        lemma_nothing_left(text, 0, b, b, start, end);
        lemma_shrunk(text, 0, b, x, start, end);
        if x <= k {
            lemma_cluster_glyphs(text, b, k, x, start, end);
        } else {
            lemma_shrunk(text, b, k, x, start, end);
            lemma_shrunk(text, k, k, x, start, end);
        }
    }
}

/// The cut at the window's start, where the cluster from `b` up to `k`
/// reaches over the start: all that precedes it goes, an ellipsis stands for
/// it, and the scan is over.
proof fn lemma_scan_cut_left(
    text: Seq<char>,
    anns: Seq<Annotation>,
    b: int,
    k: int,
    start: int,
    end: int,
    s: AnnotatedText,
)
    requires
        is_cluster(text, b, k),
        text.len() <= usize::MAX,
        0 <= start < end,
        scan_state(text, anns, k, start, end, s),
        column_at(text, b) < start < column_at(text, k) <= end,
    ensures
        final_state(
            text,
            anns,
            start,
            end,
            spliced(
                spliced(s, 0, b as usize, Seq::empty()),
                0,
                (k - b) as usize,
                seq![ELLIPSIS],
            ),
        ),
{
    let n = text.len() as int;
    let t1 = spliced(s, 0, b as usize, Seq::empty());
    let t = spliced(t1, 0, (k - b) as usize, seq![ELLIPSIS]);
    lemma_cluster_span(text, b, k, b);
    lemma_nothing_left(text, 0, b, b, start, end);
    lemma_visible_split(text, 0, b, n, start, end);
    lemma_visible_split(text, b, k, n, start, end);
    lemma_cluster_glyphs(text, b, k, k, start, end);
    lemma_visible_len(text, k, n, start, end);
    let rest = visible_glyphs(text, k, n, start, end);
    assert(s.text == text.take(k) + rest);
    assert(t1.text =~= text.subrange(b, k) + rest);
    assert(t.text =~= seq![ELLIPSIS] + rest);
    assert(t.text =~= visible_glyphs(text, 0, n, start, end));
    assert forall|j: int| 0 <= j < anns.len() implies #[trigger] t.annotations[j]
        == visible_annotation(text, anns[j], start, end) by {
        let a = anns[j];
        assert(s.annotations[j] == scan_annotation(text, a, k, start, end));
        assert(t1.annotations[j] == moved(s.annotations[j], 0, b as usize, 0));
        lemma_offset_cut_left(text, b, k, a.start as int, start, end);
        lemma_offset_cut_left(text, b, k, a.end as int, start, end);
        lemma_scan_offset_bounds(text, k, a.start as int, start, end);
        lemma_scan_offset_bounds(text, k, a.end as int, start, end);
    }
}

/// Once the scan has passed the first cluster, it is over.
proof fn lemma_scan_done(
    text: Seq<char>,
    anns: Seq<Annotation>,
    start: int,
    end: int,
    s: AnnotatedText,
)
    requires
        0 <= start < end,
        scan_state(text, anns, 0, start, end, s),
    ensures
        final_state(text, anns, start, end, s),
{
    assert(s.text =~= visible_glyphs(text, 0, text.len() as int, start, end));
    assert forall|j: int| 0 <= j < anns.len() implies #[trigger] s.annotations[j]
        == visible_annotation(text, anns[j], start, end) by {
        assert(s.annotations[j] == scan_annotation(text, anns[j], 0, start, end));
        if anns[j].start == 0 {
            assert(visible_glyphs(text, 0, 0, start, end) =~= Seq::<char>::empty());
        }
        if anns[j].end == 0 {
            assert(visible_glyphs(text, 0, 0, start, end) =~= Seq::<char>::empty());
        }
    }
}

} // verus!

verus! {

/// The annotations handed to the builder, as a sequence.
pub open spec fn given(annotations: Option<&Vec<Annotation>>) -> Seq<Annotation> {
    match annotations {
        Some(list) => list@,
        None => Seq::empty(),
    }
}

/// The cluster of a fragment: its first and last offsets bound a cluster of
/// the text.
proof fn lemma_fragment_is_cluster(text: Seq<char>, frags: Seq<TextFragment>, j: int)
    requires
        is_fragmentation(text, frags),
        0 <= j < frags.len(),
    ensures
        is_cluster(text, frags[j].start as int, frags[j].start + frags[j].len),
        j + 1 < frags.len() ==> frags[j + 1].start == frags[j].start + frags[j].len,
        j + 1 == frags.len() ==> frags[j].start + frags[j].len == text.len(),
{
    let f = frags[j];
    if j + 1 < frags.len() {
        let next = frags[j + 1];
        assert(next.start == f.start + f.len);
        assert(starts_cluster(text, next.start as int));
    }
}

/// Computes the width and the replacement glyph of a cluster from its first
/// character.
fn classify(c: char) -> (look: (GraphemeWidth, Option<char>))
    ensures
        look.0 == width_of(c),
        look.1 == replacement_of(c),
{
    let v = c as u32;
    let control = v < 0x20 || (0x7f <= v && v <= 0x9f);
    let wide_space = v == 0xa0 || v == 0x1680 || (0x2000 <= v && v <= 0x200a) || v == 0x2028
        || v == 0x2029 || v == 0x202f || v == 0x205f || v == 0x3000;
    let zero_width = (0x200b <= v && v <= 0x200f) || v == 0x2060 || v == 0xfeff;
    let wide = (0x1100 <= v && v <= 0x115f) || (0x2e80 <= v && v <= 0x303e)
        || (0x3041 <= v && v <= 0x33ff) || (0x3400 <= v && v <= 0x4dbf)
        || (0x4e00 <= v && v <= 0x9fff) || (0xa000 <= v && v <= 0xa4cf)
        || (0xac00 <= v && v <= 0xd7a3) || (0xf900 <= v && v <= 0xfaff)
        || (0xfe30 <= v && v <= 0xfe6f) || (0xff00 <= v && v <= 0xff60)
        || (0xffe0 <= v && v <= 0xffe6) || (0x1f300 <= v && v <= 0x1f64f)
        || (0x1f900 <= v && v <= 0x1f9ff) || (0x20000 <= v && v <= 0x3fffd);
    let replacement = if c == '\t' {
        Some(' ')
    } else if control {
        Some(CONTROL_GLYPH)
    } else if wide_space {
        Some(SPACE_GLYPH)
    } else if zero_width {
        Some(ZERO_WIDTH_GLYPH)
    } else {
        None
    };
    let rendered_width = if wide {
        GraphemeWidth::Full
    } else {
        GraphemeWidth::Half
    };
    (rendered_width, replacement)
}

impl Line {
    #[verifier::type_invariant]
    spec fn well_formed(self) -> bool {
        &&& is_fragmentation(self.chars@, self.fragments@)
        &&& self.fragments@.len() == cluster_count(self.chars@)
    }

    /// The line of the given text, with one fragment for each of its
    /// grapheme clusters.
    pub fn from(line_str: &str) -> (line: Line)
        ensures
            line@ == line_str@,
    {
        let chars = chars_of(line_str);
        let mut fragments: Vec<TextFragment> = Vec::new();
        let mut i: usize = 0;
        proof {
            assert(chars@.take(0) =~= Seq::<char>::empty());
        }
        while i < chars.len()
            invariant
                i <= chars.len(),
                covers(chars@, fragments@, i as int),
                fragments@.len() == cluster_count(chars@.take(i as int)),
            decreases chars.len() - i,
        {
            let c = chars[i];
            let mark = is_mark_char(c);
            let ghost before = fragments@;
            proof {
                let grown = chars@.take(i + 1);
                assert(grown.drop_last() =~= chars@.take(i as int));
                assert(grown[grown.len() - 1] == c);
            }
            if i == 0 || !mark {
                let look = classify(c);
                fragments.push(
                    TextFragment { start: i, len: 1, rendered_width: look.0, replacement: look.1 },
                );
                proof {
                    let after = fragments@;
                    assert forall|j: int| 0 <= j < after.len() - 1 implies (#[trigger] after[j
                        + 1]).start == after[j].start + after[j].len by {
                        if j + 1 < before.len() {
                            assert(after[j + 1] == before[j + 1]);
                            assert(after[j] == before[j]);
                        } else {
                            assert(after[j] == before.last());
                        }
                    }
                    assert forall|j: int| 0 <= j < after.len() implies {
                        let f = #[trigger] after[j];
                        &&& f.len >= 1
                        &&& f.start + f.len <= i + 1
                        &&& starts_cluster(chars@, f.start as int)
                        &&& all_marks(chars@, f.start + 1, f.start + f.len)
                        &&& f.rendered_width == width_of(chars@[f.start as int])
                        &&& f.replacement == replacement_of(chars@[f.start as int])
                    } by {
                        if j < before.len() {
                            assert(after[j] == before[j]);
                        }
                    }
                }
            } else {
                let last = fragments.len() - 1;
                let f = fragments[last];
                fragments.set(
                    last,
                    TextFragment {
                        start: f.start,
                        len: f.len + 1,
                        rendered_width: f.rendered_width,
                        replacement: f.replacement,
                    },
                );
                proof {
                    let after = fragments@;
                    assert(before[last as int] == f);
                    assert forall|j: int| 0 <= j < after.len() - 1 implies (#[trigger] after[j
                        + 1]).start == after[j].start + after[j].len by {
                        assert(before[j + 1].start == before[j].start + before[j].len);
                    }
                    assert forall|j: int| 0 <= j < after.len() implies {
                        let g = #[trigger] after[j];
                        &&& g.len >= 1
                        &&& g.start + g.len <= i + 1
                        &&& starts_cluster(chars@, g.start as int)
                        &&& all_marks(chars@, g.start + 1, g.start + g.len)
                        &&& g.rendered_width == width_of(chars@[g.start as int])
                        &&& g.replacement == replacement_of(chars@[g.start as int])
                    } by {
                        if j < last {
                            assert(after[j] == before[j]);
                        } else {
                            assert(all_marks(chars@, f.start + 1, f.start + f.len));
                        }
                    }
                }
            }
            i += 1;
        }
        proof {
            assert(chars@.take(i as int) =~= chars@);
        }
        Line { chars, fragments }
    }

    /// Number of grapheme clusters of the line.
    pub fn grapheme_count(&self) -> (count: GraphemeIdx)
        ensures
            count == cluster_count(self@),
    {
        proof {
            use_type_invariant(self);
        }
        self.fragments.len()
    }

    /// The fragments of the line: its grapheme clusters, in order.
    pub fn fragments(&self) -> (fragments: &Vec<TextFragment>)
        ensures
            is_fragmentation(self@, fragments@),
            fragments@.len() == cluster_count(self@),
    {
        proof {
            use_type_invariant(self);
        }
        &self.fragments
    }

    /// The characters of the line.
    pub fn grapheme_chars(&self) -> (chars: Vec<char>)
        ensures
            chars@ == self@,
    {
        let mut chars: Vec<char> = Vec::new();
        let mut i: usize = 0;
        while i < self.chars.len()
            invariant
                i <= self.chars@.len(),
                chars@.len() == i,
                forall|j: int| 0 <= j < i ==> chars@[j] == self.chars@[j],
            decreases self.chars@.len() - i,
        {
            chars.push(self.chars[i]);
            i += 1;
        }
        assert(chars@ =~= self.chars@);
        chars
    }

    /// The columns of the clusters that end at or before offset `until`,
    /// counted exactly.
    fn columns_until(&self, until: usize) -> (width: u128)
        requires
            until <= self@.len(),
        ensures
            width == column_at(self@, until as int),
            width <= 2 * until,
    {
        proof {
            use_type_invariant(self);
        }
        let ghost text = self.chars@;
        let len = self.chars.len();
        let count = self.fragments.len();
        let mut width: u128 = 0;
        let mut j: usize = 0;
        let mut stopped = false;
        while j < count && !stopped
            invariant
                j <= count == self.fragments@.len(),
                text == self.chars@,
                until <= text.len() == len,
                is_fragmentation(text, self.fragments@),
                j < count ==> self.fragments@[j as int].start <= until,
                j == count ==> until == text.len(),
                stopped ==> j < count && self.fragments@[j as int].start
                    + self.fragments@[j as int].len > until,
                width == column_at(
                    text,
                    if j < count {
                        self.fragments@[j as int].start as int
                    } else {
                        text.len() as int
                    },
                ),
                width <= 2 * until,
            decreases count - j + if stopped { 0int } else { 1int },
        {
            let f = self.fragments[j];
            proof {
                lemma_fragment_is_cluster(text, self.fragments@, j as int);
                lemma_cluster_span(text, f.start as int, f.start + f.len, f.start as int);
            }
            if f.start + f.len > until {
                stopped = true;
            } else {
                proof {
                    lemma_column_monotone(text, 0, f.start + f.len);
                }
                width = width + match f.rendered_width {
                    GraphemeWidth::Half => 1u128,
                    GraphemeWidth::Full => 2u128,
                };
                j += 1;
            }
        }
        proof {
            if j < count {
                let f = self.fragments@[j as int];
                lemma_fragment_is_cluster(text, self.fragments@, j as int);
                lemma_cluster_span(text, f.start as int, f.start + f.len, until as int);
            }
            lemma_column_monotone(text, 0, until as int);
        }
        width
    }

    /// The column at which the cluster that holds offset `until` starts: the
    /// widths of the clusters before it, added up. An offset behind the line
    /// counts as its end, and a sum that passes the largest `usize` stays
    /// there.
    pub fn width_until(&self, until: GraphemeIdx) -> (width: ColIdx)
        ensures
            width == vstd::math::min(
                column_at(self@, vstd::math::min(until as int, self@.len() as int)),
                usize::MAX as int,
            ),
    {
        let len = self.chars.len();
        let until = if until > len {
            len
        } else {
            until
        };
        let width = self.columns_until(until);
        if width > usize::MAX as u128 {
            usize::MAX
        } else {
            width as usize
        }
    }

    /// The line's characters with the given annotations.
    fn annotated(&self, annotations: Option<&Vec<Annotation>>) -> (result: AnnotatedString)
        ensures
            result@ == (AnnotatedText { text: self@, annotations: given(annotations) }),
    {
        let mut result = AnnotatedString::from_chars(self.grapheme_chars());
        match annotations {
            Some(list) => {
                let mut j: usize = 0;
                while j < list.len()
                    invariant
                        j <= list.len(),
                        result@.text == self@,
                        result@.annotations == list@.take(j as int),
                    decreases list.len() - j,
                {
                    let a = list[j];
                    result.add_annotation(a.annotation_type, a.start, a.end);
                    j += 1;
                    assert(list@.take(j as int) =~= list@.take(j - 1).push(list@[j - 1]));
                }
                assert(list@.take(j as int) =~= list@);
            },
            None => {},
        }
        result
    }

    /// What the window of the columns in `range` shows of the line. The
    /// fragments are scanned from the end of the line toward its start: a
    /// fragment that begins behind the window is passed over; one that
    /// reaches over the window's end becomes an ellipsis, and all behind it
    /// goes; one that begins at the window's end goes with all behind it; one
    /// that ends at or before the window's start goes with all before it; one
    /// that reaches over the window's start becomes an ellipsis, and all
    /// before it goes; one within the window is drawn as its replacement
    /// glyph, where it has one. An annotation covers the glyphs drawn for the
    /// characters that it covered; it is dropped where it covered a character
    /// and no glyph is left of what it covered.
    pub fn get_annotated_visible_substr(
        &self,
        range: Range<ColIdx>,
        annotations: Option<&Vec<Annotation>>,
    ) -> (result: AnnotatedString)
        ensures
            result@ == visible_substr(
                self@,
                range.start as int,
                range.end as int,
                given(annotations),
            ),
            range.start >= range.end ==> result@.text.len() == 0 && result@.annotations.len() == 0,
    {
        if range.start >= range.end {
            return AnnotatedString::default();
        }
        proof {
            use_type_invariant(self);
        }
        let n = self.chars.len();
        let count = self.fragments.len();
        let ghost text = self@;
        let ghost anns = given(annotations);
        let ghost start = range.start as int;
        let ghost end = range.end as int;
        let win_start = range.start as u128;
        let win_end = range.end as u128;
        let mut ellipsis: Vec<char> = Vec::new();
        ellipsis.push(ELLIPSIS);
        let nothing: Vec<char> = Vec::new();
        assert(ellipsis@ =~= seq![ELLIPSIS]);
        assert(nothing@ =~= Seq::<char>::empty());
        let mut result = self.annotated(annotations);
        let mut fragment_start: u128 = self.columns_until(n);
        let mut m: usize = count;
        let mut done = false;
        proof {
            assert(text.take(n as int) =~= text);
            assert(visible_glyphs(text, n as int, n as int, start, end) =~= Seq::<char>::empty());
            assert(result@.text =~= scan_text(text, n as int, start, end));
            assert forall|j: int| 0 <= j < anns.len() implies #[trigger] result@.annotations[j]
                == scan_annotation(text, anns[j], n as int, start, end) by {
                lemma_shrunk(text, n as int, n as int, anns[j].start as int + n, start, end);
                lemma_shrunk(text, n as int, n as int, anns[j].end as int + n, start, end);
            }
        }
        while m > 0 && !done
            invariant
                m <= count == self.fragments@.len(),
                n == text.len(),
                text == self.chars@,
                is_fragmentation(text, self.fragments@),
                fragment_start == column_at(
                    text,
                    if m < count {
                        self.fragments@[m as int].start as int
                    } else {
                        n as int
                    },
                ),
                win_start == start,
                win_end == end,
                0 <= start < end,
                ellipsis@ == seq![ELLIPSIS],
                nothing@ == Seq::<char>::empty(),
                done ==> final_state(text, anns, start, end, result@),
                !done ==> scan_state(
                    text,
                    anns,
                    if m < count {
                        self.fragments@[m as int].start as int
                    } else {
                        n as int
                    },
                    start,
                    end,
                    result@,
                ),
            decreases m,
        {
            let fragment = self.fragments[m - 1];
            let b = fragment.start;
            let k = fragment.start + fragment.len;
            let fragment_end = fragment_start;
            proof {
                lemma_fragment_is_cluster(text, self.fragments@, m - 1);
                lemma_cluster_span(text, b as int, k as int, b as int);
                lemma_column_monotone(text, 0, b as int);
            }
            fragment_start = match fragment.rendered_width {
                GraphemeWidth::Half => fragment_end - 1,
                GraphemeWidth::Full => fragment_end - 2,
            };
            let ghost before = result@;
            if fragment_start > win_end {
                proof {
                    lemma_scan_skip(text, anns, b as int, k as int, start, end, before);
                }
            } else if fragment_start < win_end && fragment_end > win_end {
                result.splice(b, n, &ellipsis);
                proof {
                    lemma_scan_cut(text, anns, b as int, k as int, start, end, before, ellipsis@);
                }
            } else if fragment_start == win_end {
                result.splice(b, n, &nothing);
                proof {
                    lemma_scan_cut(text, anns, b as int, k as int, start, end, before, nothing@);
                }
            } else if fragment_end <= win_start {
                result.splice(0, k, &nothing);
                proof {
                    lemma_scan_drop_left(text, anns, k as int, start, end, before);
                }
                done = true;
            } else if fragment_start < win_start {
                result.splice(0, b, &nothing);
                result.splice(0, k - b, &ellipsis);
                proof {
                    lemma_scan_cut_left(text, anns, b as int, k as int, start, end, before);
                }
                done = true;
            } else {
                proof {
                    lemma_scan_inside(text, anns, b as int, k as int, start, end, before);
                }
                match fragment.replacement {
                    Some(glyph) => {
                        let mut replacement: Vec<char> = Vec::new();
                        replacement.push(glyph);
                        assert(replacement@ =~= seq![glyph]);
                        result.splice(b, k, &replacement);
                    },
                    None => {},
                }
            }
            m -= 1;
        }
        proof {
            if !done {
                if count > 0 {
                    assert(self.fragments@[0].start == 0);
                }
                lemma_scan_done(text, anns, start, end, result@);
            }
            assert(result@.annotations =~= anns.map_values(
                |a: Annotation| visible_annotation(text, a, start, end),
            ));
        }
        match annotations {
            Some(list) => {
                result.drop_cut_away(list);
            },
            None => {
                proof {
                    assert(surviving(result@.annotations, anns) =~= Seq::<Annotation>::empty());
                    assert(result@.annotations =~= Seq::<Annotation>::empty());
                }
            },
        }
        result
    }
}

} // verus!

verus! {

/// Whether no character of the text has a replacement glyph.
pub open spec fn is_plain(text: Seq<char>) -> bool {
    forall|i: int| 0 <= i < text.len() ==> replacement_of(#[trigger] text[i]) is None
}

/// In a text without replacement glyphs no cluster has one.
proof fn lemma_plain_span(text: Seq<char>, i: int)
    requires
        is_plain(text),
        0 <= i < text.len(),
    ensures
        span_replacement(text, i) is None,
    decreases i,
{
    if i > 0 && is_mark(text[i]) {
        lemma_plain_span(text, i - 1);
    } else {
        assert(replacement_of(text[i]) is None);
    }
}

/// In a window that begins at column `0` and is at least as wide as the line,
/// every character of a line without replacement glyphs is drawn as itself.
pub proof fn lemma_wide_window_prefix(text: Seq<char>, lo: int, hi: int, width: int)
    requires
        0 <= lo <= hi <= text.len(),
        column_at(text, text.len() as int) <= width,
        is_plain(text),
    ensures
        visible_glyphs(text, lo, hi, 0, width) == text.subrange(lo, hi),
    decreases hi - lo,
{
    if lo < hi {
        lemma_column_monotone(text, 0, lo);
        lemma_span_width_bounds(text, lo);
        lemma_span_end_before(text, lo, text.len() as int);
        lemma_plain_span(text, lo);
        lemma_wide_window_prefix(text, lo + 1, hi, width);
    }
    assert(visible_glyphs(text, lo, hi, 0, width) =~= text.subrange(lo, hi));
}

/// A window that begins at column `0` and is at least as wide as the line
/// shows the whole line with its annotations: where no character has a
/// replacement glyph, the visible string is the line's text, and its
/// annotations are the given ones, each as it was given.
pub proof fn lemma_wide_window_shows_line(text: Seq<char>, width: int, annotations: Seq<Annotation>)
    requires
        0 < width,
        column_at(text, text.len() as int) <= width,
        is_plain(text),
    ensures
        visible_substr(text, 0, width, annotations) == (AnnotatedText { text, annotations }),
{
    let n = text.len() as int;
    lemma_wide_window_prefix(text, 0, n, width);
    assert(text.subrange(0, n) =~= text);
    let shown = annotations.map_values(|a: Annotation| visible_annotation(text, a, 0, width));
    assert forall|j: int| 0 <= j < annotations.len() implies shown[j] == annotations[j] by {
        let a = annotations[j];
        if a.start <= n {
            lemma_wide_window_prefix(text, 0, a.start as int, width);
        }
        if a.end <= n {
            lemma_wide_window_prefix(text, 0, a.end as int, width);
        }
    }
    assert(shown =~= annotations);
    lemma_unmoved_survive(annotations);
}

/// A window with nothing between its start and its end shows nothing.
pub proof fn lemma_empty_window_shows_nothing(
    text: Seq<char>,
    start: int,
    end: int,
    annotations: Seq<Annotation>,
)
    requires
        start >= end,
    ensures
        visible_substr(text, start, end, annotations).text.len() == 0,
        visible_substr(text, start, end, annotations).annotations.len() == 0,
{
}

/// A window whose end cuts a grapheme cluster in two shows one ellipsis at
/// that edge: the visible text is what is drawn of the characters before that
/// cluster, followed by the ellipsis.
pub proof fn lemma_split_at_end_shows_ellipsis(
    text: Seq<char>,
    b: int,
    k: int,
    start: int,
    end: int,
)
    requires
        is_cluster(text, b, k),
        start < end,
        column_at(text, b) < end < column_at(text, k),
    ensures
        visible_glyphs(text, 0, text.len() as int, start, end) == visible_glyphs(
            text,
            0,
            b,
            start,
            end,
        ).push(ELLIPSIS),
{
    let n = text.len() as int;
    lemma_cluster_span(text, b, k, b);
    lemma_visible_split(text, 0, b, n, start, end);
    lemma_visible_split(text, b, k, n, start, end);
    lemma_nothing_right(text, k, n, start, end);
    lemma_cluster_glyphs(text, b, k, k, start, end);
    assert(visible_glyphs(text, 0, n, start, end) =~= visible_glyphs(text, 0, b, start, end).push(
        ELLIPSIS,
    ));
}

/// A window whose start cuts a grapheme cluster in two shows one ellipsis at
/// that edge: the visible text is the ellipsis, followed by what is drawn of
/// the characters behind that cluster.
pub proof fn lemma_split_at_start_shows_ellipsis(
    text: Seq<char>,
    b: int,
    k: int,
    start: int,
    end: int,
)
    requires
        is_cluster(text, b, k),
        start < end,
        column_at(text, b) < start < column_at(text, k),
    ensures
        visible_glyphs(text, 0, text.len() as int, start, end) == seq![ELLIPSIS]
            + visible_glyphs(text, k, text.len() as int, start, end),
{
    let n = text.len() as int;
    lemma_cluster_span(text, b, k, b);
    lemma_column_monotone(text, 0, b);
    lemma_visible_split(text, 0, b, n, start, end);
    lemma_visible_split(text, b, k, n, start, end);
    if b > 0 {
        lemma_nothing_left(text, 0, b, b, start, end);
    }
    lemma_cluster_glyphs(text, b, k, k, start, end);
    assert(visible_glyphs(text, 0, n, start, end) =~= seq![ELLIPSIS] + visible_glyphs(
        text,
        k,
        n,
        start,
        end,
    ));
}

} // verus!
