//! Text: lower case, line splitting, and copies that keep their contents.
use vstd::prelude::*;
use vstd::string::*;
use vstd::utf8::{encode_utf8, encode_utf8_decode_utf8, is_ascii_chars};

verus! {

// ── What the standard library does to text ──────────────────────────────────

/// The Unicode lower case of a text, as [`str::to_lowercase`] computes it.
pub uninterp spec fn lowercased(text: Seq<char>) -> Seq<char>;

/// The lower-case letter of an ASCII capital; any other character as it is.
pub open spec fn ascii_lower_char(c: char) -> char {
    if 'A' <= c && c <= 'Z' {
        ((c as u32) + 32) as char
    } else {
        c
    }
}

/// A text with its ASCII capitals replaced by their lower-case letters.
pub open spec fn ascii_lower(text: Seq<char>) -> Seq<char> {
    text.map_values(|c: char| ascii_lower_char(c))
}

/// [`str::to_lowercase`]: the result is a function of the text alone, which
/// [`lowercased`] names, and on ASCII text it replaces the capitals `A` to `Z`
/// by `a` to `z` and nothing else.
pub assume_specification[ str::to_lowercase ](text: &str) -> (lower: String)
    ensures
        lower@ == lowercased(text@),
        is_ascii_chars(text@) ==> lower@ == ascii_lower(text@),
;

/// Whether a character has the Unicode property `White_Space`: the characters
/// that `PropList.txt` of the Unicode Character Database lists under it.
pub open spec fn white_space(c: char) -> bool {
    ||| '\t' <= c && c <= '\r'
    ||| c == ' '
    ||| c == '\u{85}'
    ||| c == '\u{a0}'
    ||| c == '\u{1680}'
    ||| '\u{2000}' <= c && c <= '\u{200a}'
    ||| c == '\u{2028}'
    ||| c == '\u{2029}'
    ||| c == '\u{202f}'
    ||| c == '\u{205f}'
    ||| c == '\u{3000}'
}

/// [`char::is_whitespace`]: whether the character has the Unicode property
/// `White_Space`.
pub assume_specification[ char::is_whitespace ](c: char) -> (white: bool)
    ensures
        white == white_space(c),
;

/// [`String::push`]: appends the character.
pub assume_specification[ String::push ](text: &mut String, c: char)
    ensures
        final(text)@ == old(text)@.push(c),
;

// ── Lines ───────────────────────────────────────────────────────────────────

/// A line without the carriage return that belongs to its line ending.
pub open spec fn strip_carriage_return(line: Seq<char>) -> Seq<char> {
    if line.len() > 0 && line.last() == '\r' {
        line.drop_last()
    } else {
        line
    }
}

/// The lines that a line feed ends, in order, and the text after the last line
/// feed.
pub open spec fn split_at_line_feeds(text: Seq<char>) -> (Seq<Seq<char>>, Seq<char>)
    decreases text.len(),
{
    if text.len() == 0 {
        (Seq::empty(), Seq::empty())
    } else {
        let (ended, rest) = split_at_line_feeds(text.drop_last());
        if text.last() == '\n' {
            (ended.push(strip_carriage_return(rest)), Seq::empty())
        } else {
            (ended, rest.push(text.last()))
        }
    }
}

/// The lines of a text: it is cut at `\n` or `\r\n`, the line endings are left
/// out, and the last line needs none.
pub open spec fn lines_of(text: Seq<char>) -> Seq<Seq<char>> {
    let (ended, rest) = split_at_line_feeds(text);
    if rest.len() == 0 {
        ended
    } else {
        ended.push(rest)
    }
}

/// A line that holds nothing but white space.
pub open spec fn blank(line: Seq<char>) -> bool {
    forall|i: int| 0 <= i < line.len() ==> white_space(#[trigger] line[i])
}

/// The carriage return that is held back until the next character shows
/// whether it belongs to a line ending.
spec fn held(pending: bool) -> Seq<char> {
    if pending {
        seq!['\r']
    } else {
        Seq::empty()
    }
}

/// Split `text` into its lines.
pub fn split_lines(text: &str) -> (lines: Vec<String>)
    ensures
        lines.deep_view() == lines_of(text@),
{
    let mut lines: Vec<String> = Vec::new();
    let mut line = String::new();
    let mut pending: bool = false;
    for c in it: text.chars()
        invariant
            it.seq() == text@,
            lines.deep_view() == split_at_line_feeds(text@.take(it.index() as int)).0,
            line@ + held(pending) == split_at_line_feeds(text@.take(it.index() as int)).1,
            !pending ==> (line@.len() > 0 ==> line@.last() != '\r'),
    {
        proof {
            let i = it.index() as int;
            assert(text@.take(i + 1).drop_last() =~= text@.take(i));
            assert(text@.take(i + 1).last() == text@[i]);
        }
        if c == '\n' {
            let ghost ended = lines.deep_view();
            let ghost whole = line@ + held(pending);
            assert(strip_carriage_return(whole) =~= line@);
            lines.push(line);
            assert(lines.deep_view() =~= ended.push(strip_carriage_return(whole)));
            line = String::new();
            pending = false;
            assert(line@ + held(pending) =~= Seq::<char>::empty());
        } else {
            if pending {
                line.push('\r');
            }
            if c == '\r' {
                pending = true;
            } else {
                line.push(c);
                pending = false;
            }
        }
    }
    assert(text@.take(text@.len() as int) =~= text@);
    let ghost ended = lines.deep_view();
    let ghost rest = line@ + held(pending);
    if pending {
        line.push('\r');
    }
    assert(line@ =~= rest);
    if !line.as_str().is_empty() {
        lines.push(line);
        assert(lines.deep_view() =~= ended.push(rest));
    }
    lines
}

/// Whether `line` holds nothing but white space.
pub fn is_blank(line: &str) -> (yes: bool)
    ensures
        yes == blank(line@),
{
    for c in it: line.chars()
        invariant
            it.seq() == line@,
            forall|i: int| 0 <= i < it.index() ==> white_space(#[trigger] line@[i]),
    {
        if !c.is_whitespace() {
            assert(line@[it.index() as int] == c);
            return false;
        }
    }
    true
}

/// Text that ends a line and the text that follows it have the lines of the
/// one and then the lines of the other: what is appended to a file of complete
/// lines leaves the lines that were there as they were.
pub proof fn law_lines_append(text: Seq<char>, more: Seq<char>)
    requires
        text.len() == 0 || text.last() == '\n',
    ensures
        lines_of(text + more) == lines_of(text) + lines_of(more),
{
    lemma_split_append(text, more);
    assert(split_at_line_feeds(text).1.len() == 0);
    assert(lines_of(text + more) =~= lines_of(text) + lines_of(more));
}

/// A line with its line ending is a text of that one line.
pub proof fn law_single_line(line: Seq<char>)
    requires
        !line.contains('\n'),
    ensures
        lines_of(line.push('\n')) == seq![strip_carriage_return(line)],
{
    lemma_split_without_line_feed(line);
    assert(line.push('\n').drop_last() =~= line);
    assert(lines_of(line.push('\n')) =~= seq![strip_carriage_return(line)]);
}

/// A line without a line ending is a text of that one line, unless it is empty.
pub proof fn law_unended_line(line: Seq<char>)
    requires
        !line.contains('\n'),
    ensures
        lines_of(line) == (if line.len() == 0 {
            Seq::<Seq<char>>::empty()
        } else {
            seq![line]
        }),
{
    lemma_split_without_line_feed(line);
    assert(Seq::<Seq<char>>::empty().push(line) =~= seq![line]);
}

proof fn lemma_split_without_line_feed(line: Seq<char>)
    requires
        !line.contains('\n'),
    ensures
        split_at_line_feeds(line) == (Seq::<Seq<char>>::empty(), line),
    decreases line.len(),
{
    if line.len() > 0 {
        let fewer = line.drop_last();
        assert forall|i: int| 0 <= i < fewer.len() implies fewer[i] != '\n' by {
            assert(line.contains(line[i]));
        }
        lemma_split_without_line_feed(fewer);
        assert(line.contains(line.last()));
        assert(fewer.push(line.last()) =~= line);
    } else {
        assert(line =~= Seq::<char>::empty());
    }
}

/// A line is ended by a line feed or by a carriage return and a line feed, and
/// what ends it is no part of it.
pub proof fn law_line_endings(line: Seq<char>)
    requires
        !line.contains('\n'),
    ensures
        lines_of(line + seq!['\r', '\n']) == seq![line],
        line.len() == 0 || line.last() != '\r' ==> lines_of(line + seq!['\n']) == seq![line],
        line.len() > 0 ==> lines_of(line) == seq![line],
        line.len() == 0 ==> lines_of(line) == Seq::<Seq<char>>::empty(),
{
    let returned = line.push('\r');
    assert forall|i: int| 0 <= i < returned.len() implies returned[i] != '\n' by {
        if i < line.len() {
            assert(line.contains(line[i]));
        }
    }
    law_single_line(returned);
    law_single_line(line);
    law_unended_line(line);
    assert(line + seq!['\r', '\n'] =~= returned.push('\n'));
    assert(line + seq!['\n'] =~= line.push('\n'));
    assert(returned.drop_last() =~= line);
}

/// A text is blank just where each of its characters is white space: nothing is
/// blank, a character is if it is white space, and two texts together are if
/// both are.
pub proof fn law_blank(a: Seq<char>, b: Seq<char>, c: char)
    ensures
        blank(Seq::<char>::empty()),
        blank(seq![c]) == white_space(c),
        blank(a + b) == (blank(a) && blank(b)),
{
    if blank(seq![c]) {
        assert(white_space(seq![c][0]));
    }
    if blank(a + b) {
        assert forall|i: int| 0 <= i < a.len() implies white_space(#[trigger] a[i]) by {
            assert(a[i] == (a + b)[i]);
        }
        assert forall|i: int| 0 <= i < b.len() implies white_space(#[trigger] b[i]) by {
            assert(b[i] == (a + b)[a.len() + i]);
        }
    }
}

/// Spaces, tabs and the characters that end lines are white space; the visible
/// ASCII characters are not.
pub proof fn law_ascii_white_space(c: char)
    ensures
        c == ' ' || c == '\t' || c == '\n' || c == '\r' ==> white_space(c),
        '!' <= c && c <= '~' ==> !white_space(c),
{
}

/// A capital ASCII letter becomes the small one, and any other character stays.
pub proof fn law_ascii_lower(text: Seq<char>, i: int)
    requires
        0 <= i < text.len(),
    ensures
        ascii_lower(text).len() == text.len(),
        'A' <= text[i] && text[i] <= 'Z' ==> ascii_lower(text)[i] == (text[i] as u32 + 32) as char,
        !('A' <= text[i] && text[i] <= 'Z') ==> ascii_lower(text)[i] == text[i],
{
}

/// One text joined is that text, and two lists joined are the one joined, the
/// separator, and the other joined.
pub proof fn law_joined(first: Seq<Seq<char>>, second: Seq<Seq<char>>, separator: Seq<char>)
    requires
        first.len() > 0,
        second.len() > 0,
    ensures
        joined(first + second, separator) == joined(first, separator) + separator + joined(
            second,
            separator,
        ),
        first.len() == 1 ==> joined(first, separator) == first[0],
        joined(Seq::empty(), separator) == Seq::<char>::empty(),
    decreases second.len(),
{
    let all = first + second;
    assert(all.drop_last() =~= first + second.drop_last());
    assert(all.last() == second.last());
    if second.len() == 1 {
        assert(all.drop_last() =~= first);
    } else {
        law_joined(first, second.drop_last(), separator);
        assert(joined(all, separator) =~= joined(first, separator) + separator + joined(
            second,
            separator,
        ));
    }
}

proof fn lemma_split_append(text: Seq<char>, more: Seq<char>)
    requires
        text.len() == 0 || text.last() == '\n',
    ensures
        split_at_line_feeds(text + more).0 == split_at_line_feeds(text).0 + split_at_line_feeds(
            more,
        ).0,
        split_at_line_feeds(text + more).1 == split_at_line_feeds(more).1,
    decreases more.len(),
{
    if more.len() == 0 {
        assert(text + more =~= text);
        assert(split_at_line_feeds(text).0 + split_at_line_feeds(more).0 =~= split_at_line_feeds(
            text,
        ).0);
    } else {
        lemma_split_append(text, more.drop_last());
        assert((text + more).drop_last() =~= text + more.drop_last());
        assert((text + more).last() == more.last());
        assert(split_at_line_feeds(text + more).0 =~= split_at_line_feeds(text).0
            + split_at_line_feeds(more).0);
    }
}

// ── Characters and copies ───────────────────────────────────────────────────

/// Whether `text` holds the character `wanted`.
pub fn contains_char(text: &str, wanted: char) -> (yes: bool)
    ensures
        yes == text@.contains(wanted),
{
    for c in it: text.chars()
        invariant
            it.seq() == text@,
            forall|i: int| 0 <= i < it.index() ==> #[trigger] text@[i] != wanted,
    {
        if c == wanted {
            assert(text@[it.index() as int] == wanted);
            return true;
        }
    }
    false
}

/// Whether two texts are the same.
pub fn same_text(a: &str, b: &str) -> (same: bool)
    ensures
        same == (a@ == b@),
{
    let left = a.as_bytes();
    let right = b.as_bytes();
    if left.len() != right.len() {
        return false;
    }
    for i in 0..left.len()
        invariant
            left@ == encode_utf8(a@),
            right@ == encode_utf8(b@),
            left@.len() == right@.len(),
            forall|j: int| 0 <= j < i ==> left@[j] == right@[j],
    {
        if left[i] != right[i] {
            return false;
        }
    }
    assert(left@ =~= right@);
    proof {
        encode_utf8_decode_utf8(a@);
        encode_utf8_decode_utf8(b@);
    }
    true
}

/// The texts one behind the other, with the separator between each two.
pub open spec fn joined(texts: Seq<Seq<char>>, separator: Seq<char>) -> Seq<char>
    decreases texts.len(),
{
    if texts.len() == 0 {
        Seq::empty()
    } else if texts.len() == 1 {
        texts[0]
    } else {
        joined(texts.drop_last(), separator) + separator + texts.last()
    }
}

/// A copy of a list of texts.
pub fn copy_texts(texts: &Vec<String>) -> (copy: Vec<String>)
    ensures
        copy.deep_view() == texts.deep_view(),
{
    let copy = texts.clone();
    assert(copy.deep_view() =~= texts.deep_view()) by {
        assert forall|i: int| 0 <= i < texts@.len() implies copy@[i]@ == texts@[i]@ by {
            assert(cloned::<String>(texts[i], copy[i]));
        }
    }
    copy
}

/// A copy of a text that may be absent.
pub fn copy_optional(text: &Option<String>) -> (copy: Option<String>)
    ensures
        copy.deep_view() == text.deep_view(),
{
    match text {
        Some(inner) => Some(inner.clone()),
        None => None,
    }
}

} // verus!
