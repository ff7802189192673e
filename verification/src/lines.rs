//! The line structure of a text, as a mathematical model over `Seq<char>`.
//!
//! A line break is a single line feed. Line `0` starts at offset `0`; every
//! later line starts just behind a line feed. A text with `n` line feeds has
//! `n + 1` lines, the last of which may be empty; the first `n` of them are
//! the content lines that the buffer counts.

use vstd::prelude::*;
use crate::cluster::cluster_count;

verus! {

/// The character that ends a line.
pub const LINE_FEED: char = '\n';

/// Number of line feeds in `s`.
pub open spec fn line_breaks(s: Seq<char>) -> nat
    decreases s.len(),
{
    if s.len() == 0 {
        0
    } else if s[0] == LINE_FEED {
        1 + line_breaks(s.drop_first())
    } else {
        line_breaks(s.drop_first())
    }
}

/// Offset of the first character of line `line`: `0` for line `0`, else the
/// offset just behind the `line`-th line feed. Where `s` has fewer than `line`
/// line feeds, the length of `s`.
pub open spec fn line_start(s: Seq<char>, line: nat) -> nat
    decreases s.len(),
{
    if line == 0 || s.len() == 0 {
        0
    } else if s[0] == LINE_FEED {
        1 + line_start(s.drop_first(), (line - 1) as nat)
    } else {
        1 + line_start(s.drop_first(), line)
    }
}

/// Offset behind the last character of content line `line`, its line feed
/// included. The last content line reaches to the end of the text.
pub open spec fn line_end(s: Seq<char>, line: nat) -> nat {
    if line + 1 == line_breaks(s) {
        s.len()
    } else {
        line_start(s, line + 1)
    }
}

/// The characters of line `line`, from its start to its end.
pub open spec fn line_text(s: Seq<char>, line: nat) -> Seq<char> {
    s.subrange(line_start(s, line) as int, line_end(s, line) as int)
}

/// The graphemes of content line `line`: its characters without the last
/// one, which is its line feed.
pub open spec fn line_graphemes(s: Seq<char>, line: nat) -> Seq<char> {
    s.subrange(line_start(s, line) as int, line_end(s, line) - 1)
}

/// Number of grapheme clusters of content line `line`, its line feed not
/// counted; `0` for an index that is no content line.
pub open spec fn grapheme_count(s: Seq<char>, line: nat) -> nat {
    if line >= line_breaks(s) {
        0
    } else {
        cluster_count(line_graphemes(s, line))
    }
}

/// The text made of the given lines, each followed by a line feed.
pub open spec fn join_lines(lines: Seq<Seq<char>>) -> Seq<char>
    decreases lines.len(),
{
    if lines.len() == 0 {
        Seq::empty()
    } else {
        lines[0].push(LINE_FEED) + join_lines(lines.drop_first())
    }
}

/// Whether a line holds no line feed.
pub open spec fn is_single_line(line: Seq<char>) -> bool {
    forall|i: int| 0 <= i < line.len() ==> line[i] != LINE_FEED
}

pub proof fn lemma_line_start_bounded(s: Seq<char>, line: nat)
    ensures
        line_start(s, line) <= s.len(),
    decreases s.len(),
{
    if line == 0 || s.len() == 0 {
    } else if s[0] == LINE_FEED {
        lemma_line_start_bounded(s.drop_first(), (line - 1) as nat);
    } else {
        lemma_line_start_bounded(s.drop_first(), line);
    }
}

pub proof fn lemma_line_start_monotone(s: Seq<char>, a: nat, b: nat)
    requires
        a <= b,
    ensures
        line_start(s, a) <= line_start(s, b),
    decreases s.len(),
{
    if a == 0 || s.len() == 0 {
    } else if s[0] == LINE_FEED {
        lemma_line_start_monotone(s.drop_first(), (a - 1) as nat, (b - 1) as nat);
    } else {
        lemma_line_start_monotone(s.drop_first(), a, b);
    }
}

/// A content line ends in a line feed, and holds none before it.
pub proof fn lemma_content_line(s: Seq<char>, line: nat)
    requires
        line < line_breaks(s),
    ensures
        line_start(s, line) < line_start(s, line + 1) <= s.len(),
        s[line_start(s, line + 1) - 1] == LINE_FEED,
        forall|i: int|
            line_start(s, line) <= i < line_start(s, line + 1) - 1 ==> s[i] != LINE_FEED,
    decreases s.len(),
{
    let rest = s.drop_first();
    lemma_line_start_bounded(s, line + 1);
    if s[0] == LINE_FEED {
        if line == 0 {
        } else {
            lemma_content_line(rest, (line - 1) as nat);
            assert forall|i: int|
                line_start(s, line) <= i < line_start(s, line + 1) - 1 implies s[i]
                != LINE_FEED by {
                assert(s[i] == rest[i - 1]);
            }
        }
    } else {
        lemma_content_line(rest, line);
        assert forall|i: int|
            line_start(s, line) <= i < line_start(s, line + 1) - 1 implies s[i] != LINE_FEED by {
            if i > 0 {
                assert(s[i] == rest[i - 1]);
            }
        }
    }
}

/// An insertion at or behind the start of a line leaves that start in place.
pub proof fn lemma_line_start_insert(s: Seq<char>, line: nat, offset: int, c: char)
    requires
        line <= line_breaks(s),
        line_start(s, line) <= offset <= s.len(),
    ensures
        line_start(s.insert(offset, c), line) == line_start(s, line),
    decreases s.len(),
{
    if line == 0 || s.len() == 0 {
    } else {
        let rest = s.drop_first();
        assert(s.insert(offset, c).drop_first() =~= rest.insert(offset - 1, c));
        if s[0] == LINE_FEED {
            lemma_line_start_insert(rest, (line - 1) as nat, offset - 1, c);
        } else {
            lemma_line_start_insert(rest, line, offset - 1, c);
        }
    }
}

/// An inserted character adds a line break exactly where it is a line feed.
pub proof fn lemma_line_breaks_insert(s: Seq<char>, offset: int, c: char)
    requires
        0 <= offset <= s.len(),
    ensures
        line_breaks(s.insert(offset, c)) == line_breaks(s) + if c == LINE_FEED {
            1nat
        } else {
            0nat
        },
    decreases s.len(),
{
    if offset == 0 {
        assert(s.insert(offset, c).drop_first() =~= s);
    } else {
        let rest = s.drop_first();
        assert(s.insert(offset, c).drop_first() =~= rest.insert(offset - 1, c));
        lemma_line_breaks_insert(rest, offset - 1, c);
    }
}

/// The line breaks of two texts add up in their concatenation.
pub proof fn lemma_line_breaks_concat(a: Seq<char>, b: Seq<char>)
    ensures
        line_breaks(a + b) == line_breaks(a) + line_breaks(b),
    decreases a.len(),
{
    if a.len() == 0 {
        assert(a + b =~= b);
    } else {
        assert((a + b).drop_first() =~= a.drop_first() + b);
        lemma_line_breaks_concat(a.drop_first(), b);
    }
}

/// The line that holds an offset starts at or before it.
pub proof fn lemma_line_of_offset(s: Seq<char>, offset: int)
    requires
        0 <= offset <= s.len(),
    ensures
        line_breaks(s.take(offset)) <= line_breaks(s),
        line_start(s, line_breaks(s.take(offset))) <= offset,
    decreases s.len(),
{
    if offset == 0 {
        assert(s.take(offset) =~= Seq::<char>::empty());
    } else {
        let rest = s.drop_first();
        assert(s.take(offset).drop_first() =~= rest.take(offset - 1));
        lemma_line_of_offset(rest, offset - 1);
    }
}

/// A line without a line feed has no line break.
pub proof fn lemma_single_line_has_no_break(line: Seq<char>)
    requires
        is_single_line(line),
    ensures
        line_breaks(line) == 0,
    decreases line.len(),
{
    if line.len() > 0 {
        let rest = line.drop_first();
        assert forall|i: int| 0 <= i < rest.len() implies rest[i] != LINE_FEED by {
            assert(rest[i] == line[i + 1]);
        }
        lemma_single_line_has_no_break(rest);
    }
}

/// A text made of `n` lines, each ended by a line feed, has `n` content
/// lines: this is the height of the buffer that holds it.
pub proof fn lemma_height_of_terminated_lines(lines: Seq<Seq<char>>)
    requires
        forall|i: int| 0 <= i < lines.len() ==> is_single_line(#[trigger] lines[i]),
    ensures
        line_breaks(join_lines(lines)) == lines.len(),
    decreases lines.len(),
{
    if lines.len() > 0 {
        let first = lines[0];
        let rest = lines.drop_first();
        assert forall|i: int| 0 <= i < rest.len() implies is_single_line(#[trigger] rest[i]) by {
            assert(rest[i] == lines[i + 1]);
        }
        lemma_height_of_terminated_lines(rest);
        lemma_single_line_has_no_break(first);
        assert(first.push(LINE_FEED) =~= first + seq![LINE_FEED]);
        lemma_line_breaks_concat(first, seq![LINE_FEED]);
        assert(line_breaks(seq![LINE_FEED]) == 1) by {
            reveal_with_fuel(line_breaks, 2);
            assert(seq![LINE_FEED].drop_first() =~= Seq::<char>::empty());
        }
        lemma_line_breaks_concat(first.push(LINE_FEED), join_lines(rest));
    }
}

/// In a text that ends in a line feed, the line behind the last content line
/// starts at the end of the text.
pub proof fn lemma_last_line_start(s: Seq<char>)
    requires
        s.len() > 0,
        s.last() == LINE_FEED,
    ensures
        line_breaks(s) >= 1,
        line_start(s, line_breaks(s)) == s.len(),
    decreases s.len(),
{
    let rest = s.drop_first();
    if s.len() == 1 {
        assert(rest =~= Seq::<char>::empty());
        assert(line_breaks(rest) == 0);
        assert(line_start(rest, 0) == 0);
    } else {
        assert(rest.last() == s.last());
        lemma_last_line_start(rest);
    }
}

/// The grapheme count of a content line is the number of grapheme clusters of
/// the line without its line feed: the characters that are counted hold no
/// line feed, and the line feed follows them. This holds of every content
/// line but the last one of a text that does not end in a line feed, which
/// reaches to the end of the text.
pub proof fn lemma_grapheme_count_counts_clusters(s: Seq<char>, line: nat)
    requires
        line < line_breaks(s),
        line + 1 < line_breaks(s) || s.last() == LINE_FEED,
    ensures
        grapheme_count(s, line) == cluster_count(line_graphemes(s, line)),
        is_single_line(line_graphemes(s, line)),
        line_start(s, line) + line_graphemes(s, line).len() < s.len(),
        s[(line_start(s, line) + line_graphemes(s, line).len()) as int] == LINE_FEED,
{
    lemma_content_line(s, line);
    if line + 1 == line_breaks(s) {
        lemma_last_line_start(s);
    }
}

/// Behind a first line and its line feed, the lines start where they start
/// in the rest of the text, moved by the length of that first line.
proof fn lemma_line_start_behind_first_line(first: Seq<char>, rest: Seq<char>, line: nat)
    requires
        is_single_line(first),
        line >= 1,
    ensures
        line_start(first.push(LINE_FEED) + rest, line) == first.len() + 1 + line_start(
            rest,
            (line - 1) as nat,
        ),
    decreases first.len(),
{
    let s = first.push(LINE_FEED) + rest;
    if first.len() == 0 {
        assert(s.drop_first() =~= rest);
    } else {
        let shorter = first.drop_first();
        assert(s[0] == first[0]);
        assert(s.drop_first() =~= shorter.push(LINE_FEED) + rest);
        assert forall|i: int| 0 <= i < shorter.len() implies shorter[i] != LINE_FEED by {
            assert(shorter[i] == first[i + 1]);
        }
        lemma_line_start_behind_first_line(shorter, rest, line);
    }
}

/// Joining two runs of lines joins their texts.
proof fn lemma_join_concat(a: Seq<Seq<char>>, b: Seq<Seq<char>>)
    ensures
        join_lines(a + b) == join_lines(a) + join_lines(b),
    decreases a.len(),
{
    if a.len() == 0 {
        assert(a + b =~= b);
        assert(join_lines(a + b) =~= join_lines(a) + join_lines(b));
    } else {
        assert((a + b).drop_first() =~= a.drop_first() + b);
        lemma_join_concat(a.drop_first(), b);
        assert(join_lines(a + b) =~= join_lines(a) + join_lines(b));
    }
}

/// In a text made of lines that each end in a line feed, line `line` starts
/// behind the lines before it.
proof fn lemma_joined_line_start(lines: Seq<Seq<char>>, line: nat)
    requires
        forall|i: int| 0 <= i < lines.len() ==> is_single_line(#[trigger] lines[i]),
        line <= lines.len(),
    ensures
        line_start(join_lines(lines), line) == join_lines(lines.take(line as int)).len(),
    decreases lines.len(),
{
    if line == 0 {
        assert(lines.take(0) =~= Seq::<Seq<char>>::empty());
    } else {
        let first = lines[0];
        let rest = lines.drop_first();
        assert forall|i: int| 0 <= i < rest.len() implies is_single_line(#[trigger] rest[i]) by {
            assert(rest[i] == lines[i + 1]);
        }
        lemma_line_start_behind_first_line(first, join_lines(rest), line);
        lemma_joined_line_start(rest, (line - 1) as nat);
        assert(lines.take(line as int).drop_first() =~= rest.take(line - 1));
        assert(lines.take(line as int)[0] == first);
    }
}

/// A text made of `n` lines, each ended by a line feed, holds these lines as
/// its content lines: line `line` of the text is the given line with its line
/// feed, and has as many graphemes as the given line has grapheme clusters.
pub proof fn lemma_lines_of_terminated_text(lines: Seq<Seq<char>>, line: nat)
    requires
        forall|i: int| 0 <= i < lines.len() ==> is_single_line(#[trigger] lines[i]),
        line < lines.len(),
    ensures
        line_breaks(join_lines(lines)) == lines.len(),
        line_text(join_lines(lines), line) == lines[line as int].push(LINE_FEED),
        line_graphemes(join_lines(lines), line) == lines[line as int],
        grapheme_count(join_lines(lines), line) == cluster_count(lines[line as int]),
{
    let text = join_lines(lines);
    let before = lines.take(line as int);
    let upto = lines.take((line + 1) as int);
    let behind = lines.skip((line + 1) as int);
    lemma_height_of_terminated_lines(lines);
    lemma_joined_line_start(lines, line);
    lemma_joined_line_start(lines, line + 1);
    assert(upto =~= before + seq![lines[line as int]]);
    lemma_join_concat(before, seq![lines[line as int]]);
    assert(join_lines(seq![lines[line as int]]) =~= lines[line as int].push(LINE_FEED)) by {
        reveal_with_fuel(join_lines, 2);
        assert(seq![lines[line as int]].drop_first() =~= Seq::<Seq<char>>::empty());
    }
    assert(lines =~= upto + behind);
    lemma_join_concat(upto, behind);
    assert(upto.len() == lines.len() ==> behind.len() == 0);
    assert(line_end(text, line) == join_lines(upto).len()) by {
        if line + 1 == lines.len() {
            assert(join_lines(behind) =~= Seq::<char>::empty());
        }
    }
    assert(line_text(text, line) =~= lines[line as int].push(LINE_FEED));
    assert(line_graphemes(text, line) =~= lines[line as int]);
}

} // verus!
