//! The lines of an index file: one published version each.
use vstd::prelude::*;

use crate::features::{merged, FeatureMap};
use crate::text::{
    blank, is_blank, lines_of, split_at_line_feeds, split_lines, strip_carriage_return, white_space,
};

verus! {

/// One line of the sparse-index file; represents one published version.
#[derive(Debug)]
pub struct IndexEntry {
    pub name: String,
    pub vers: String,
    pub deps: Vec<IndexDep>,
    /// Primary feature map.
    pub features: FeatureMap,
    /// Extended feature map (format version 2).
    pub features2: FeatureMap,
    pub yanked: bool,
}

/// Dependency entry inside an [`IndexEntry`].
#[derive(Debug)]
pub struct IndexDep {
    /// The dependency's crate name as it appears in the index.
    pub name: String,
    /// The version requirement (semver req string).
    pub req: String,
    pub features: Vec<String>,
    pub optional: bool,
    pub default_features: bool,
    pub target: Option<String>,
    /// "normal", "dev", or "build".
    pub kind: Option<String>,
    /// If set, the dependency resolves from a different registry.
    pub registry: Option<String>,
    /// Actual crate name if the dependency was renamed with `package = "..."`.
    pub package: Option<String>,
}

/// The meaning of an [`IndexEntry`].
#[verifier::ext_equal]
pub struct IndexEntryView {
    pub name: Seq<char>,
    pub vers: Seq<char>,
    pub deps: Seq<IndexDepView>,
    pub features: Map<Seq<char>, Seq<Seq<char>>>,
    pub features2: Map<Seq<char>, Seq<Seq<char>>>,
    pub yanked: bool,
}

/// The meaning of an [`IndexDep`].
#[verifier::ext_equal]
pub struct IndexDepView {
    pub name: Seq<char>,
    pub req: Seq<char>,
    pub features: Seq<Seq<char>>,
    pub optional: bool,
    pub default_features: bool,
    pub target: Option<Seq<char>>,
    pub kind: Option<Seq<char>>,
    pub registry: Option<Seq<char>>,
    pub package: Option<Seq<char>>,
}

impl DeepView for IndexEntry {
    type V = IndexEntryView;

    open spec fn deep_view(&self) -> IndexEntryView {
        IndexEntryView {
            name: self.name@,
            vers: self.vers@,
            deps: self.deps.deep_view(),
            features: self.features@,
            features2: self.features2@,
            yanked: self.yanked,
        }
    }
}

impl DeepView for IndexDep {
    type V = IndexDepView;

    open spec fn deep_view(&self) -> IndexDepView {
        IndexDepView {
            name: self.name@,
            req: self.req@,
            features: self.features.deep_view(),
            optional: self.optional,
            default_features: self.default_features,
            target: self.target.deep_view(),
            kind: self.kind.deep_view(),
            registry: self.registry.deep_view(),
            package: self.package.deep_view(),
        }
    }
}

impl IndexEntry {
    /// The features of both maps of the entry.
    pub fn merged_features(&self) -> (features: FeatureMap)
        ensures
            features@ == merged(self.features@, self.features2@),
    {
        self.features.merged_with(&self.features2)
    }
}

/// What a dependency's `default_features` is when the line does not say.
pub fn bool_true() -> (value: bool)
    ensures
        value,
{
    true
}

// ── Parsing ─────────────────────────────────────────────────────────────────

/// The lines of a file that may hold an entry: those that are not blank.
pub open spec fn entry_lines(body: Seq<char>) -> Seq<Seq<char>> {
    lines_of(body).filter(|line: Seq<char>| !blank(line))
}

/// Whether a decoder may answer a line with this outcome.
pub open spec fn may_decode<F: Fn(&str) -> Option<IndexEntry>>(
    decode: F,
    line: Seq<char>,
    outcome: Option<IndexEntry>,
) -> bool {
    exists|text: &str| text@ == line && #[trigger] call_ensures(decode, (text,), outcome)
}

/// The entries among the outcomes, in their order.
pub open spec fn decoded(outcomes: Seq<Option<IndexEntry>>) -> Seq<IndexEntry>
    decreases outcomes.len(),
{
    if outcomes.len() == 0 {
        Seq::empty()
    } else {
        match outcomes.last() {
            Some(entry) => decoded(outcomes.drop_last()).push(entry),
            None => decoded(outcomes.drop_last()),
        }
    }
}

/// The entries are what the decoder made of the lines of the file that are not
/// blank, in their order, without the lines that it could not decode.
pub open spec fn decoded_from<F: Fn(&str) -> Option<IndexEntry>>(
    entries: Seq<IndexEntry>,
    decode: F,
    body: Seq<char>,
) -> bool {
    exists|outcomes: Seq<Option<IndexEntry>>|
        outcomes_of(outcomes, decode, entry_lines(body)) && entries == #[trigger] decoded(outcomes)
}

/// One outcome of the decoder for each line.
pub open spec fn outcomes_of<F: Fn(&str) -> Option<IndexEntry>>(
    outcomes: Seq<Option<IndexEntry>>,
    decode: F,
    lines: Seq<Seq<char>>,
) -> bool {
    &&& outcomes.len() == lines.len()
    &&& forall|i: int|
        0 <= i < lines.len() ==> may_decode(decode, lines[i], #[trigger] outcomes[i])
}

/// Parse the body of a sparse-index file into a list of [`IndexEntry`] values,
/// with `decode` for a single line.
///
/// Lines that are empty or that `decode` makes nothing of (e.g. lines of a
/// future format) are silently skipped so that the parser remains
/// forward-compatible.
pub fn parse_index_entries<F: Fn(&str) -> Option<IndexEntry>>(body: &str, decode: &F) -> (entries:
    Vec<IndexEntry>)
    requires
        forall|line: &str| call_requires(*decode, (line,)),
    ensures
        decoded_from(entries@, *decode, body@),
{
    let lines = split_lines(body);
    let ghost all = lines.deep_view();
    let ghost wanted = |line: Seq<char>| !blank(line);
    let ghost mut outcomes: Seq<Option<IndexEntry>> = Seq::empty();
    let mut entries: Vec<IndexEntry> = Vec::new();
    proof {
        reveal(Seq::filter);
        assert(all.take(0).filter(wanted) =~= Seq::<Seq<char>>::empty());
    }
    for i in 0..lines.len()
        invariant
            all == lines.deep_view(),
            wanted == (|line: Seq<char>| !blank(line)),
            forall|line: &str| call_requires(*decode, (line,)),
            outcomes_of(outcomes, *decode, all.take(i as int).filter(wanted)),
            entries@ == decoded(outcomes),
    {
        let ghost before = all.take(i as int).filter(wanted);
        proof {
            reveal(Seq::filter);
            assert(all.take(i + 1).drop_last() =~= all.take(i as int));
            assert(all.take(i + 1).last() == lines@[i as int]@);
        }
        if !is_blank(lines[i].as_str()) {
            let line = lines[i].as_str();
            let outcome = (*decode)(line);
            proof {
                assert(all.take(i + 1).filter(wanted) =~= before.push(line@));
                assert(may_decode(*decode, line@, outcome));
                let earlier = outcomes;
                outcomes = outcomes.push(outcome);
                assert(outcomes.drop_last() =~= earlier);
                assert(outcomes_of(
                    outcomes,
                    *decode,
                    all.take(i + 1).filter(wanted),
                ));
            }
            if let Some(entry) = outcome {
                entries.push(entry);
            }
        }
    }
    assert(all.take(all.len() as int) =~= all);
    assert(outcomes_of(outcomes, *decode, entry_lines(body@)));
    entries
}

/// A decoder that answers each line in one way makes one list of a file: what
/// it makes of the lines that are not blank, in order.
pub proof fn law_parse_is_filter_map<F: Fn(&str) -> Option<IndexEntry>>(
    entries: Seq<IndexEntry>,
    decode: F,
    body: Seq<char>,
    meaning: spec_fn(Seq<char>) -> Option<IndexEntry>,
)
    requires
        decoded_from(entries, decode, body),
        forall|text: &str, outcome: Option<IndexEntry>| #[trigger]
            call_ensures(decode, (text,), outcome) ==> outcome == meaning(text@),
    ensures
        entries == decoded(entry_lines(body).map_values(meaning)),
{
    let outcomes = choose|outcomes: Seq<Option<IndexEntry>>|
        outcomes_of(outcomes, decode, entry_lines(body)) && entries == #[trigger] decoded(outcomes);
    assert forall|i: int| 0 <= i < outcomes.len() implies outcomes[i] == meaning(
        entry_lines(body)[i],
    ) by {
        assert(may_decode(decode, entry_lines(body)[i], outcomes[i]));
    }
    assert(outcomes =~= entry_lines(body).map_values(meaning));
}

/// The index file is a log: lines appended to a file of complete lines add
/// their entries behind those that were there, and change none of these.
pub proof fn law_appended_lines_append_entries(
    body: Seq<char>,
    more: Seq<char>,
    meaning: spec_fn(Seq<char>) -> Option<IndexEntry>,
)
    requires
        body.len() == 0 || body.last() == '\n',
    ensures
        decoded(entry_lines(body + more).map_values(meaning)) == decoded(
            entry_lines(body).map_values(meaning),
        ) + decoded(entry_lines(more).map_values(meaning)),
{
    let wanted = |line: Seq<char>| !blank(line);
    crate::text::law_lines_append(body, more);
    lemma_filter_concat(lines_of(body), lines_of(more), wanted);
    let first = entry_lines(body).map_values(meaning);
    let second = entry_lines(more).map_values(meaning);
    assert(entry_lines(body + more).map_values(meaning) =~= first + second);
    lemma_decoded_concat(first, second);
}

/// The lines that may hold an entry, from the lines that a line feed ends and the
/// text behind the last line feed; a line feed behind that text leaves it as it
/// is but for a carriage return.
proof fn lemma_entry_lines_of_parts(body: Seq<char>)
    ensures
        ({
            let (ended, rest) = split_at_line_feeds(body);
            let complete = ended.filter(|line: Seq<char>| !blank(line));
            &&& entry_lines(body) == (if blank(rest) {
                complete
            } else {
                complete + seq![rest]
            })
            &&& entry_lines(body.push('\n')) == (if blank(rest) {
                complete
            } else {
                complete + seq![strip_carriage_return(rest)]
            })
        }),
{
    let wanted = |line: Seq<char>| !blank(line);
    let (ended, rest) = split_at_line_feeds(body);
    let last = strip_carriage_return(rest);
    let none = Seq::<Seq<char>>::empty();
    let complete = ended.filter(wanted);
    assert(complete + none =~= complete);
    assert(body.push('\n').drop_last() =~= body);
    assert(lines_of(body.push('\n')) =~= ended + seq![last]);
    lemma_filter_concat(ended, seq![last], wanted);
    lemma_single_filtered(last, wanted);
    lemma_blank_without_carriage_return(rest);
    if rest.len() > 0 {
        assert(lines_of(body) =~= ended + seq![rest]);
        lemma_filter_concat(ended, seq![rest], wanted);
        lemma_single_filtered(rest, wanted);
    }
}

/// Two texts joined by a line feed have the entries of the one and then those of
/// the other, whether or not the first text ends with a complete line. A carriage
/// return at the end of the first text becomes part of a line ending, so the
/// decoder must read the last line alike with it and without it.
pub proof fn law_joined_texts_join_entries(
    body: Seq<char>,
    more: Seq<char>,
    meaning: spec_fn(Seq<char>) -> Option<IndexEntry>,
)
    requires
        ({
            let rest = split_at_line_feeds(body).1;
            blank(rest) || meaning(strip_carriage_return(rest)) == meaning(rest)
        }),
    ensures
        decoded(entry_lines(body.push('\n') + more).map_values(meaning)) == decoded(
            entry_lines(body).map_values(meaning),
        ) + decoded(entry_lines(more).map_values(meaning)),
{
    lemma_entry_lines_of_parts(body);
    assert(entry_lines(body.push('\n')).map_values(meaning) =~= entry_lines(body).map_values(
        meaning,
    ));
    law_appended_lines_append_entries(body.push('\n'), more, meaning);
}

/// Whether a decoder may answer a line in the same ways with the carriage return
/// at its end and without it; it is not asked about a blank one.
pub open spec fn reads_alike<F: Fn(&str) -> Option<IndexEntry>>(decode: F, line: Seq<char>) -> bool {
    blank(line) || forall|outcome: Option<IndexEntry>|
        may_decode(decode, strip_carriage_return(line), outcome) == #[trigger] may_decode(
            decode,
            line,
            outcome,
        )
}

proof fn lemma_joined_entry_lines(body: Seq<char>, more: Seq<char>)
    ensures
        entry_lines(body.push('\n') + more) == entry_lines(body.push('\n')) + entry_lines(more),
{
    crate::text::law_lines_append(body.push('\n'), more);
    lemma_filter_concat(
        lines_of(body.push('\n')),
        lines_of(more),
        |line: Seq<char>| !blank(line),
    );
}

proof fn lemma_ended_outcomes<F: Fn(&str) -> Option<IndexEntry>>(
    outcomes: Seq<Option<IndexEntry>>,
    decode: F,
    body: Seq<char>,
)
    requires
        reads_alike(decode, split_at_line_feeds(body).1),
    ensures
        outcomes_of(outcomes, decode, entry_lines(body.push('\n'))) == outcomes_of(
            outcomes,
            decode,
            entry_lines(body),
        ),
{
    let rest = split_at_line_feeds(body).1;
    let before = entry_lines(body);
    let after = entry_lines(body.push('\n'));
    lemma_entry_lines_of_parts(body);
    if outcomes.len() == before.len() {
        assert forall|i: int| 0 <= i < before.len() implies may_decode(
            decode,
            after[i],
            #[trigger] outcomes[i],
        ) == may_decode(decode, before[i], outcomes[i]) by {
            if i == before.len() - 1 && !blank(rest) {
                assert(before[i] == rest && after[i] == strip_carriage_return(rest));
            } else {
                assert(before[i] == after[i]);
            }
        }
    }
}

/// Whatever a decoder makes of two texts, it may make the one and then the other
/// of the texts joined by a line feed, if it reads the last line of the first
/// text alike with a carriage return at its end and without it.
pub proof fn law_joined_texts_may_join_entries<F: Fn(&str) -> Option<IndexEntry>>(
    decode: F,
    body: Seq<char>,
    more: Seq<char>,
    first: Seq<IndexEntry>,
    second: Seq<IndexEntry>,
)
    requires
        reads_alike(decode, split_at_line_feeds(body).1),
        decoded_from(first, decode, body),
        decoded_from(second, decode, more),
    ensures
        decoded_from(first + second, decode, body.push('\n') + more),
{
    let a = choose|outcomes: Seq<Option<IndexEntry>>|
        outcomes_of(outcomes, decode, entry_lines(body)) && first == #[trigger] decoded(outcomes);
    let b = choose|outcomes: Seq<Option<IndexEntry>>|
        outcomes_of(outcomes, decode, entry_lines(more)) && second == #[trigger] decoded(outcomes);
    lemma_joined_entry_lines(body, more);
    lemma_ended_outcomes(a, decode, body);
    lemma_decoded_concat(a, b);
    let lines = entry_lines(body.push('\n') + more);
    assert forall|i: int| 0 <= i < lines.len() implies may_decode(
        decode,
        lines[i],
        #[trigger] (a + b)[i],
    ) by {
        if i < a.len() {
            assert(may_decode(decode, entry_lines(body.push('\n'))[i], a[i]));
        } else {
            assert(may_decode(decode, entry_lines(more)[i - a.len()], b[i - a.len()]));
        }
    }
    assert(outcomes_of(a + b, decode, lines));
}

/// Whatever a decoder makes of two texts joined by a line feed is what it may
/// make of the one and then what it may make of the other, if it reads the last
/// line of the first text alike with a carriage return at its end and without it.
pub proof fn law_joined_texts_join_nothing_else<F: Fn(&str) -> Option<IndexEntry>>(
    decode: F,
    body: Seq<char>,
    more: Seq<char>,
    both: Seq<IndexEntry>,
)
    requires
        reads_alike(decode, split_at_line_feeds(body).1),
        decoded_from(both, decode, body.push('\n') + more),
    ensures
        exists|first: Seq<IndexEntry>, second: Seq<IndexEntry>| #[trigger]
            decoded_from(first, decode, body) && #[trigger] decoded_from(second, decode, more)
                && both == first + second,
{
    let lines = entry_lines(body.push('\n') + more);
    let outcomes = choose|outcomes: Seq<Option<IndexEntry>>|
        outcomes_of(outcomes, decode, lines) && both == #[trigger] decoded(outcomes);
    let count = entry_lines(body.push('\n')).len() as int;
    lemma_joined_entry_lines(body, more);
    let a = outcomes.take(count);
    let b = outcomes.skip(count);
    assert forall|i: int| 0 <= i < a.len() implies may_decode(
        decode,
        entry_lines(body.push('\n'))[i],
        #[trigger] a[i],
    ) by {
        assert(may_decode(decode, lines[i], outcomes[i]));
    }
    assert forall|i: int| 0 <= i < b.len() implies may_decode(
        decode,
        entry_lines(more)[i],
        #[trigger] b[i],
    ) by {
        assert(may_decode(decode, lines[i + count], outcomes[i + count]));
    }
    lemma_ended_outcomes(a, decode, body);
    lemma_decoded_concat(a, b);
    assert(outcomes =~= a + b);
    assert(outcomes_of(a, decode, entry_lines(body)));
    assert(outcomes_of(b, decode, entry_lines(more)));
    assert(decoded_from(decoded(a), decode, body));
    assert(decoded_from(decoded(b), decode, more));
}

/// A text of one line that is not blank has the entry that the decoder makes of
/// the line, and none where it makes nothing of it. The line ending is not handed
/// to the decoder.
pub proof fn law_line_has_its_entry<F: Fn(&str) -> Option<IndexEntry>>(
    entries: Seq<IndexEntry>,
    decode: F,
    body: Seq<char>,
    line: Seq<char>,
    visible: int,
)
    requires
        decoded_from(entries, decode, body),
        !line.contains('\n'),
        0 <= visible < line.len(),
        !white_space(line[visible]),
        body == line || body == line + seq!['\r', '\n'] || (body == line + seq!['\n']
            && line.last() != '\r'),
    ensures
        exists|text: &str, outcome: Option<IndexEntry>| #[trigger]
            call_ensures(decode, (text,), outcome) && text@ == line && entries == (match outcome {
                Some(entry) => seq![entry],
                None => Seq::<IndexEntry>::empty(),
            }),
{
    let wanted = |line: Seq<char>| !blank(line);
    crate::text::law_line_endings(line);
    assert(lines_of(body) == seq![line]);
    lemma_single_filtered(line, wanted);
    let outcomes = choose|outcomes: Seq<Option<IndexEntry>>|
        outcomes_of(outcomes, decode, entry_lines(body)) && entries == #[trigger] decoded(outcomes);
    let outcome = outcomes[0];
    assert(may_decode(decode, entry_lines(body)[0], outcome));
    let text = choose|text: &str| text@ == line && #[trigger] call_ensures(decode, (text,), outcome);
    assert(outcomes.drop_last() =~= Seq::<Option<IndexEntry>>::empty());
    assert(decoded(outcomes.drop_last()) =~= Seq::<IndexEntry>::empty());
    assert(outcomes.last() == outcome);
    if let Some(entry) = outcome {
        assert(entries =~= seq![entry]);
    } else {
        assert(entries =~= Seq::<IndexEntry>::empty());
    }
}

/// A text of white space alone has no entry, whatever the decoder would make of
/// it.
pub proof fn law_white_space_has_no_entry<F: Fn(&str) -> Option<IndexEntry>>(
    entries: Seq<IndexEntry>,
    decode: F,
    body: Seq<char>,
)
    requires
        decoded_from(entries, decode, body),
        !body.contains('\n'),
        forall|i: int| 0 <= i < body.len() ==> white_space(#[trigger] body[i]),
    ensures
        entries == Seq::<IndexEntry>::empty(),
{
    crate::text::law_line_endings(body);
    reveal(Seq::filter);
    lemma_single_filtered(body, |line: Seq<char>| !blank(line));
    assert(entry_lines(body) =~= Seq::<Seq<char>>::empty());
    let outcomes = choose|outcomes: Seq<Option<IndexEntry>>|
        outcomes_of(outcomes, decode, entry_lines(body)) && entries == #[trigger] decoded(outcomes);
    assert(outcomes =~= Seq::<Option<IndexEntry>>::empty());
}

/// A text of one line that is blank or that cannot be decoded has no entry.
pub proof fn law_skipped_line_alone(
    line: Seq<char>,
    meaning: spec_fn(Seq<char>) -> Option<IndexEntry>,
)
    requires
        !line.contains('\n'),
        blank(line) || meaning(line) is None,
    ensures
        decoded(entry_lines(line).map_values(meaning)) == Seq::<IndexEntry>::empty(),
{
    let wanted = |line: Seq<char>| !blank(line);
    let outcomes = entry_lines(line).map_values(meaning);
    crate::text::law_unended_line(line);
    lemma_single_filtered(line, wanted);
    reveal(Seq::filter);
    if line.len() == 0 || blank(line) {
        assert(entry_lines(line) =~= Seq::<Seq<char>>::empty());
    } else {
        assert(entry_lines(line) =~= seq![line]);
        assert(outcomes.drop_last() =~= Seq::<Option<IndexEntry>>::empty());
        assert(outcomes.last() is None);
        assert(decoded(outcomes.drop_last()) =~= Seq::<IndexEntry>::empty());
    }
}

proof fn lemma_single_filtered(line: Seq<char>, wanted: spec_fn(Seq<char>) -> bool)
    ensures
        seq![line].filter(wanted) == (if wanted(line) {
            seq![line]
        } else {
            Seq::<Seq<char>>::empty()
        }),
{
    reveal(Seq::filter);
    assert(seq![line].drop_last() =~= Seq::<Seq<char>>::empty());
    assert(seq![line].drop_last().filter(wanted) =~= Seq::<Seq<char>>::empty());
    assert(seq![line].last() == line);
    assert(Seq::<Seq<char>>::empty().push(line) =~= seq![line]);
}

proof fn lemma_blank_without_carriage_return(line: Seq<char>)
    ensures
        blank(strip_carriage_return(line)) == blank(line),
{
    let short = strip_carriage_return(line);
    if blank(short) {
        assert forall|i: int| 0 <= i < line.len() implies white_space(#[trigger] line[i]) by {
            if i < short.len() {
                assert(white_space(short[i]));
            }
        }
    }
    if blank(line) {
        assert forall|i: int| 0 <= i < short.len() implies white_space(#[trigger] short[i]) by {
            assert(short[i] == line[i]);
        }
    }
}

/// A line that is blank or that cannot be decoded does not matter: the file
/// has the entries that it would have without the line.
pub proof fn law_skipped_line(
    body: Seq<char>,
    line: Seq<char>,
    more: Seq<char>,
    meaning: spec_fn(Seq<char>) -> Option<IndexEntry>,
)
    requires
        body.len() == 0 || body.last() == '\n',
        !line.contains('\n'),
        blank(strip_carriage_return(line)) || meaning(strip_carriage_return(line)) is None,
    ensures
        decoded(entry_lines(body + line.push('\n') + more).map_values(meaning)) == decoded(
            entry_lines(body + more).map_values(meaning),
        ),
{
    let ended = line.push('\n');
    let wanted = |line: Seq<char>| !blank(line);
    let none = Seq::<IndexEntry>::empty();
    crate::text::law_single_line(line);
    reveal(Seq::filter);
    assert(lines_of(ended).drop_last() =~= Seq::<Seq<char>>::empty());
    assert(lines_of(ended).drop_last().filter(wanted) =~= Seq::<Seq<char>>::empty());
    assert(lines_of(ended).last() == strip_carriage_return(line));
    let outcomes = entry_lines(ended).map_values(meaning);
    if blank(strip_carriage_return(line)) {
        assert(entry_lines(ended) =~= Seq::<Seq<char>>::empty());
        assert(outcomes =~= Seq::<Option<IndexEntry>>::empty());
    } else {
        assert(entry_lines(ended) =~= seq![strip_carriage_return(line)]);
        assert(outcomes.drop_last() =~= Seq::<Option<IndexEntry>>::empty());
        assert(outcomes.last() is None);
        assert(decoded(outcomes.drop_last()) =~= none);
    }
    assert(decoded(outcomes) =~= none);
    law_appended_lines_append_entries(body, ended, meaning);
    law_appended_lines_append_entries(body + ended, more, meaning);
    law_appended_lines_append_entries(body, more, meaning);
    let first = decoded(entry_lines(body).map_values(meaning));
    assert(first + none =~= first);
}

proof fn lemma_filter_concat(
    a: Seq<Seq<char>>,
    b: Seq<Seq<char>>,
    wanted: spec_fn(Seq<char>) -> bool,
)
    ensures
        (a + b).filter(wanted) == a.filter(wanted) + b.filter(wanted),
    decreases b.len(),
{
    reveal(Seq::filter);
    if b.len() == 0 {
        assert(a + b =~= a);
        assert(a.filter(wanted) + b.filter(wanted) =~= a.filter(wanted));
    } else {
        lemma_filter_concat(a, b.drop_last(), wanted);
        assert((a + b).drop_last() =~= a + b.drop_last());
        assert((a + b).last() == b.last());
        assert((a + b).filter(wanted) =~= a.filter(wanted) + b.filter(wanted));
    }
}

proof fn lemma_decoded_concat(a: Seq<Option<IndexEntry>>, b: Seq<Option<IndexEntry>>)
    ensures
        decoded(a + b) == decoded(a) + decoded(b),
    decreases b.len(),
{
    if b.len() == 0 {
        assert(a + b =~= a);
        assert(decoded(a) + decoded(b) =~= decoded(a));
    } else {
        lemma_decoded_concat(a, b.drop_last());
        assert((a + b).drop_last() =~= a + b.drop_last());
        assert((a + b).last() == b.last());
        assert(decoded(a + b) =~= decoded(a) + decoded(b));
    }
}

} // verus!
