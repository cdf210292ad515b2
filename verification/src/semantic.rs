//! Semantic versions: how they are written, and how they are ordered.
use semver::Version as Semver;
use vstd::prelude::*;

use crate::text::joined;

verus! {

// ── How a version is written ────────────────────────────────────────────────

/// A number in decimal digits, without leading zeros.
pub open spec fn decimal(number: nat) -> Seq<char>
    decreases number,
{
    if number < 10 {
        seq![(48 + number) as char]
    } else {
        decimal(number / 10).push((48 + number % 10) as char)
    }
}

/// A character that may stand in an identifier.
pub open spec fn identifier_char(c: char) -> bool {
    ||| '0' <= c && c <= '9'
    ||| 'a' <= c && c <= 'z'
    ||| 'A' <= c && c <= 'Z'
    ||| c == '-'
}

/// An identifier: ASCII letters, digits and hyphens, at least one.
pub open spec fn identifier(text: Seq<char>) -> bool {
    &&& text.len() > 0
    &&& forall|i: int| 0 <= i < text.len() ==> identifier_char(#[trigger] text[i])
}

/// A text of digits alone.
pub open spec fn digits_only(text: Seq<char>) -> bool {
    forall|i: int| 0 <= i < text.len() ==> '0' <= #[trigger] text[i] && text[i] <= '9'
}

/// The parts of a version: three numbers, the identifiers of its pre-release and
/// those of its build metadata; a part without identifiers is absent.
#[verifier::ext_equal]
pub struct VersionParts {
    pub major: u64,
    pub minor: u64,
    pub patch: u64,
    pub pre: Seq<Seq<char>>,
    pub build: Seq<Seq<char>>,
}

/// The parts of a version are identifiers; in the pre-release, none of digits
/// alone has a leading zero.
pub open spec fn well_formed(parts: VersionParts) -> bool {
    &&& forall|i: int|
        0 <= i < parts.pre.len() ==> {
            let text = #[trigger] parts.pre[i];
            identifier(text) && (digits_only(text) && text.len() > 1 ==> text[0] != '0')
        }
    &&& forall|i: int| 0 <= i < parts.build.len() ==> identifier(#[trigger] parts.build[i])
}

/// The text of a version: the numbers with dots between them, the pre-release
/// behind a `-` and the build metadata behind a `+`, with dots between their
/// identifiers.
pub open spec fn written(parts: VersionParts) -> Seq<char> {
    let numbers = decimal(parts.major as nat) + "."@ + decimal(parts.minor as nat) + "."@
        + decimal(parts.patch as nat);
    let pre = if parts.pre.len() == 0 {
        Seq::empty()
    } else {
        "-"@ + joined(parts.pre, "."@)
    };
    let build = if parts.build.len() == 0 {
        Seq::empty()
    } else {
        "+"@ + joined(parts.build, "."@)
    };
    numbers + pre + build
}

/// The text is that of a version of these parts.
pub open spec fn spells(text: Seq<char>, parts: VersionParts) -> bool {
    well_formed(parts) && text == written(parts)
}

// ── Where a version stands ──────────────────────────────────────────────────

/// The number that digits stand for.
pub open spec fn value_of(digits: Seq<char>) -> int
    decreases digits.len(),
{
    if digits.len() == 0 {
        0
    } else {
        value_of(digits.drop_last()) * 10 + (digits.last() as int - 48)
    }
}

/// The characters of a text as numbers.
pub open spec fn codes(text: Seq<char>) -> Seq<int> {
    text.map_values(|c: char| c as int)
}

/// Where an identifier stands: one of digits before any other, by its value and
/// then by its length, and others in ASCII order.
pub open spec fn identifier_place(text: Seq<char>) -> Seq<int> {
    if digits_only(text) {
        seq![1int, value_of(text), text.len() as int]
    } else {
        seq![2int] + codes(text) + seq![0int]
    }
}

/// Where a list of identifiers stands: the first that differ decide, and a
/// beginning of a list stands before the list.
pub open spec fn identifiers_place(list: Seq<Seq<char>>) -> Seq<int>
    decreases list.len(),
{
    if list.len() == 0 {
        seq![0int]
    } else {
        identifier_place(list[0]) + identifiers_place(list.drop_first())
    }
}

/// Where a version stands among all versions, to be compared by [`before`]: the
/// numbers decide first, then the pre-release, then the build metadata. A
/// pre-release stands before the release, and a version without build metadata
/// before those with it.
pub open spec fn parts_place(parts: VersionParts) -> Seq<int> {
    let numbers = seq![parts.major as int, parts.minor as int, parts.patch as int];
    let pre = if parts.pre.len() == 0 {
        seq![1int]
    } else {
        seq![0int] + identifiers_place(parts.pre)
    };
    let build = if parts.build.len() == 0 {
        Seq::empty()
    } else {
        identifiers_place(parts.build)
    };
    numbers + (pre + build)
}

// ── Versions as the semver library holds them ───────────────────────────────

/// A semantic version, parsed; it is compared and never looked into.
#[verifier::external_type_specification]
#[verifier::external_body]
pub struct ExSemver(Semver);

/// The semantic version that a text is, if it is one.
pub uninterp spec fn semver_of(text: Seq<char>) -> Option<Semver>;

/// Where a version stands among all versions: the order of versions is that of
/// their places, compared by [`before`].
pub uninterp spec fn place_of(version: Semver) -> Seq<int>;

/// Whether a version has no pre-release part.
pub uninterp spec fn released(version: Semver) -> bool;

/// The text is a version just where it is written as one, and the version has
/// the pre-release part and the place that its parts give it.
pub open spec fn read_as(text: Seq<char>, version: Option<Semver>) -> bool {
    &&& version is Some == exists|parts: VersionParts| spells(text, parts)
    &&& forall|parts: VersionParts| #[trigger]
        spells(text, parts) ==> (version matches Some(parsed) ==> {
            &&& released(parsed) == (parts.pre.len() == 0)
            &&& place_of(parsed) == parts_place(parts)
        })
}

/// `semver::Version::parse`: the outcome depends on the text alone, which
/// [`semver_of`] names. A text is a version just where it is written as
/// [`written`] says; numbers are at most `u64::MAX` and have no leading zeros.
/// The order of versions is that of their parts, which [`parts_place`] gives.
#[verifier::external_body]
pub(crate) fn parse_version(text: &str) -> (version: Option<Semver>)
    ensures
        version == semver_of(text@),
        read_as(text@, version),
{
    Semver::parse(text).ok()
}

/// `cmp` of `semver::Version`: a total order on versions. A version's place in
/// it is what [`place_of`] names, and the first version is the greater of the
/// two where its place is behind that of the second.
#[verifier::external_body]
pub(crate) fn outranks(first: &Semver, second: &Semver) -> (greater: bool)
    ensures
        greater == before(place_of(*second), place_of(*first)),
{
    first.cmp(second).is_gt()
}

/// `is_empty` of the `semver::Prerelease` of a version: whether the version has
/// no pre-release part, which [`released`] names.
#[verifier::external_body]
pub(crate) fn has_no_prerelease(version: &Semver) -> (stable: bool)
    ensures
        stable == released(*version),
{
    version.pre.is_empty()
}

// ── The order of places ─────────────────────────────────────────────────────

/// Lexicographic order: the first difference decides, and a beginning of a
/// sequence stands before the sequence.
pub open spec fn before(a: Seq<int>, b: Seq<int>) -> bool
    decreases b.len(),
{
    if b.len() == 0 {
        false
    } else if a.len() == 0 {
        true
    } else if a[0] != b[0] {
        a[0] < b[0]
    } else {
        before(a.skip(1), b.skip(1))
    }
}

/// The first difference decides which of two places stands before the other, and
/// a beginning of a place stands before it.
pub proof fn law_first_difference_decides(start: Seq<int>, a: Seq<int>, b: Seq<int>)
    requires
        a.len() == 0 || b.len() == 0 || a[0] != b[0],
    ensures
        before(start + a, start + b) == (b.len() > 0 && (a.len() == 0 || a[0] < b[0])),
{
    lemma_before_skips(start, a, b);
}

/// Of two places at most one stands before the other, and if neither does they
/// are the same.
pub proof fn law_before_is_total(a: Seq<int>, b: Seq<int>)
    ensures
        !(before(a, b) && before(b, a)),
        !before(a, b) && !before(b, a) ==> a == b,
    decreases b.len(),
{
    if a.len() > 0 && b.len() > 0 {
        law_before_is_total(a.skip(1), b.skip(1));
        if a[0] == b[0] && a.skip(1) == b.skip(1) {
            assert(a =~= seq![a[0]] + a.skip(1));
            assert(b =~= seq![b[0]] + b.skip(1));
        }
    } else {
        if a.len() == 0 && b.len() == 0 {
            assert(a =~= b);
        }
    }
}

/// A place before a place before a third is before the third.
pub proof fn law_before_is_transitive(a: Seq<int>, b: Seq<int>, c: Seq<int>)
    requires
        before(a, b),
        before(b, c),
    ensures
        before(a, c),
    decreases c.len(),
{
    if a.len() > 0 && b.len() > 0 && c.len() > 0 && a[0] == b[0] && b[0] == c[0] {
        law_before_is_transitive(a.skip(1), b.skip(1), c.skip(1));
    }
}

proof fn lemma_before_skips(start: Seq<int>, a: Seq<int>, b: Seq<int>)
    ensures
        before(start + a, start + b) == before(a, b),
    decreases start.len(),
{
    if start.len() == 0 {
        assert(start + a =~= a);
        assert(start + b =~= b);
    } else {
        lemma_before_skips(start.skip(1), a, b);
        assert((start + a).skip(1) =~= start.skip(1) + a);
        assert((start + b).skip(1) =~= start.skip(1) + b);
    }
}

/// What is before stays before with a zero and anything behind it, where no
/// code is zero.
proof fn lemma_before_ended(a: Seq<int>, b: Seq<int>, x: Seq<int>, y: Seq<int>)
    requires
        before(a, b),
        forall|i: int| 0 <= i < b.len() ==> #[trigger] b[i] > 0,
    ensures
        before(a + seq![0int] + x, b + seq![0int] + y),
    decreases b.len(),
{
    let left = a + seq![0int] + x;
    let right = b + seq![0int] + y;
    if a.len() == 0 {
        assert(left[0] == 0 && right[0] == b[0]);
    } else {
        assert(left[0] == a[0] && right[0] == b[0]);
        if a[0] == b[0] {
            lemma_before_ended(a.skip(1), b.skip(1), x, y);
            assert(left.skip(1) =~= a.skip(1) + seq![0int] + x);
            assert(right.skip(1) =~= b.skip(1) + seq![0int] + y);
        }
    }
}

// ── How two versions compare ────────────────────────────────────────────────

/// The place of the version that a text is.
pub open spec fn text_place(text: Seq<char>) -> Seq<int> {
    place_of(semver_of(text)->0)
}

/// Whether an identifier stands before another: one of digits alone before any
/// other, two of digits alone by their value and, where leading zeros leave the
/// same value, by their length, and two others in ASCII order.
pub open spec fn identifier_before(a: Seq<char>, b: Seq<char>) -> bool {
    if digits_only(a) {
        ||| !digits_only(b)
        ||| value_of(a) < value_of(b)
        ||| value_of(a) == value_of(b) && a.len() < b.len()
    } else {
        !digits_only(b) && before(codes(a), codes(b))
    }
}

/// Whether a list of identifiers stands before another: at the first place at
/// which they differ it has the identifier that stands before the other, or it
/// ends there.
pub open spec fn identifiers_before(a: Seq<Seq<char>>, b: Seq<Seq<char>>) -> bool {
    exists|k: int|
        #![trigger a.take(k)]
        0 <= k <= a.len() && k < b.len() && a.take(k) == b.take(k) && (k == a.len()
            || identifier_before(a[k], b[k]))
}

proof fn lemma_identifier_before(a: Seq<char>, b: Seq<char>, x: Seq<int>, y: Seq<int>)
    requires
        identifier(b),
        identifier_before(a, b),
    ensures
        before(identifier_place(a) + x, identifier_place(b) + y),
{
    let left = identifier_place(a) + x;
    let right = identifier_place(b) + y;
    if digits_only(a) {
        assert(left[0] == 1);
        if digits_only(b) {
            reveal_with_fuel(before, 4);
            assert(left[1] == value_of(a) && right[1] == value_of(b));
            assert(left[2] == a.len() && right[2] == b.len());
            assert(left.skip(1)[0] == left[1] && right.skip(1)[0] == right[1]);
            assert(left.skip(1).skip(1)[0] == left[2] && right.skip(1).skip(1)[0] == right[2]);
        } else {
            assert(right[0] == 2);
        }
    } else {
        assert forall|i: int| 0 <= i < codes(b).len() implies #[trigger] codes(b)[i] > 0 by {
            assert(identifier_char(b[i]));
        }
        lemma_before_ended(codes(a), codes(b), x, y);
        lemma_before_skips(
            seq![2int],
            codes(a) + seq![0int] + x,
            codes(b) + seq![0int] + y,
        );
        assert(left =~= seq![2int] + (codes(a) + seq![0int] + x));
        assert(right =~= seq![2int] + (codes(b) + seq![0int] + y));
    }
}

proof fn lemma_identifiers_before(
    a: Seq<Seq<char>>,
    b: Seq<Seq<char>>,
    k: int,
    x: Seq<int>,
    y: Seq<int>,
)
    requires
        0 <= k <= a.len(),
        k < b.len(),
        a.take(k) == b.take(k),
        k == a.len() || identifier_before(a[k], b[k]),
        forall|i: int| 0 <= i < b.len() ==> identifier(#[trigger] b[i]),
    ensures
        before(identifiers_place(a) + x, identifiers_place(b) + y),
    decreases k,
{
    let left = identifiers_place(a) + x;
    let right = identifiers_place(b) + y;
    let right_rest = identifiers_place(b.drop_first()) + y;
    assert(right =~= identifier_place(b[0]) + right_rest);
    if a.len() == 0 {
        assert(left[0] == 0);
        assert(right[0] == identifier_place(b[0])[0]);
    } else {
        let left_rest = identifiers_place(a.drop_first()) + x;
        assert(left =~= identifier_place(a[0]) + left_rest);
        if k == 0 {
            lemma_identifier_before(a[0], b[0], left_rest, right_rest);
        } else {
            assert(a[0] == a.take(k)[0]);
            assert(b[0] == b.take(k)[0]);
            assert(a.drop_first().take(k - 1) =~= a.take(k).drop_first());
            assert(b.drop_first().take(k - 1) =~= b.take(k).drop_first());
            lemma_identifiers_before(a.drop_first(), b.drop_first(), k - 1, x, y);
            lemma_before_skips(identifier_place(a[0]), left_rest, right_rest);
        }
    }
}

/// Whether a version stands before another, by their parts: the numbers decide
/// from left to right, then a pre-release stands before a release, then the
/// identifiers of two pre-releases decide, then those of the build metadata.
pub open spec fn parts_before(a: VersionParts, b: VersionParts) -> bool {
    if a.major != b.major {
        a.major < b.major
    } else if a.minor != b.minor {
        a.minor < b.minor
    } else if a.patch != b.patch {
        a.patch < b.patch
    } else if a.pre != b.pre {
        a.pre.len() > 0 && (b.pre.len() == 0 || identifiers_before(a.pre, b.pre))
    } else {
        identifiers_before(a.build, b.build)
    }
}

proof fn lemma_parts_before(a: VersionParts, b: VersionParts)
    requires
        well_formed(b),
        parts_before(a, b),
    ensures
        before(parts_place(a), parts_place(b)),
{
    let a_build = if a.build.len() == 0 {
        Seq::empty()
    } else {
        identifiers_place(a.build)
    };
    let b_build = if b.build.len() == 0 {
        Seq::empty()
    } else {
        identifiers_place(b.build)
    };
    if a.major == b.major && a.minor == b.minor && a.patch == b.patch {
        let numbers = seq![a.major as int, a.minor as int, a.patch as int];
        let a_tail = parts_place(a).skip(3);
        let b_tail = parts_place(b).skip(3);
        assert(parts_place(a) =~= numbers + a_tail);
        assert(parts_place(b) =~= numbers + b_tail);
        lemma_before_skips(numbers, a_tail, b_tail);
        if a.pre != b.pre {
            assert(a_tail =~= seq![0int] + (identifiers_place(a.pre) + a_build));
            if b.pre.len() == 0 {
                assert(b_tail[0] == 1);
            } else {
                let k = choose|k: int|
                    #![trigger a.pre.take(k)]
                    0 <= k <= a.pre.len() && k < b.pre.len() && a.pre.take(k) == b.pre.take(k) && (k
                        == a.pre.len() || identifier_before(a.pre[k], b.pre[k]));
                assert(b_tail =~= seq![0int] + (identifiers_place(b.pre) + b_build));
                lemma_identifiers_before(a.pre, b.pre, k, a_build, b_build);
                lemma_before_skips(
                    seq![0int],
                    identifiers_place(a.pre) + a_build,
                    identifiers_place(b.pre) + b_build,
                );
            }
        } else {
            let pre = if a.pre.len() == 0 {
                seq![1int]
            } else {
                seq![0int] + identifiers_place(a.pre)
            };
            assert(a_tail =~= pre + a_build);
            assert(b_tail =~= pre + b_build);
            lemma_before_skips(pre, a_build, b_build);
            let k = choose|k: int|
                #![trigger a.build.take(k)]
                0 <= k <= a.build.len() && k < b.build.len() && a.build.take(k) == b.build.take(k)
                    && (k == a.build.len() || identifier_before(a.build[k], b.build[k]));
            if a.build.len() == 0 {
                assert(b_build.len() > 0);
            } else {
                lemma_identifiers_before(a.build, b.build, k, Seq::empty(), Seq::empty());
                assert(a_build + Seq::<int>::empty() =~= a_build);
                assert(b_build + Seq::<int>::empty() =~= b_build);
            }
        }
    } else {
        reveal_with_fuel(before, 4);
        let left = parts_place(a);
        let right = parts_place(b);
        assert(left[0] == a.major && left[1] == a.minor && left[2] == a.patch);
        assert(right[0] == b.major && right[1] == b.minor && right[2] == b.patch);
        assert(left.skip(1)[0] == left[1] && right.skip(1)[0] == right[1]);
        assert(left.skip(1).skip(1)[0] == left[2] && right.skip(1).skip(1)[0] == right[2]);
    }
}

proof fn lemma_identifier_order_is_total(a: Seq<char>, b: Seq<char>)
    requires
        a != b,
    ensures
        identifier_before(a, b) || identifier_before(b, a),
{
    if digits_only(a) && digits_only(b) {
        if a.len() == b.len() && value_of(a) == value_of(b) {
            lemma_digits_by_value(a, b);
        }
    } else if !digits_only(a) && !digits_only(b) {
        law_before_is_total(codes(a), codes(b));
        if codes(a) == codes(b) {
            assert forall|i: int| 0 <= i < a.len() implies a[i] == b[i] by {
                assert(codes(a)[i] == a[i] as int);
                assert(codes(b)[i] == b[i] as int);
            }
            assert(a.len() == codes(a).len() && b.len() == codes(b).len());
            assert(a =~= b);
        }
    }
}

proof fn lemma_identifiers_order_is_total(a: Seq<Seq<char>>, b: Seq<Seq<char>>, k: int)
    requires
        0 <= k <= a.len(),
        k <= b.len(),
        a.take(k) == b.take(k),
        a != b,
    ensures
        identifiers_before(a, b) || identifiers_before(b, a),
    decreases a.len() - k,
{
    assert(a.take(k) == b.take(k) && b.take(k) == a.take(k));
    if k < a.len() && k < b.len() {
        if a[k] == b[k] {
            assert(a.take(k + 1) =~= a.take(k).push(a[k]));
            assert(b.take(k + 1) =~= b.take(k).push(b[k]));
            lemma_identifiers_order_is_total(a, b, k + 1);
        } else {
            lemma_identifier_order_is_total(a[k], b[k]);
        }
    } else if k == a.len() && k == b.len() {
        assert(a.take(k) =~= a && b.take(k) =~= b);
    }
}

proof fn lemma_parts_order_is_total(a: VersionParts, b: VersionParts)
    requires
        a != b,
    ensures
        parts_before(a, b) || parts_before(b, a),
{
    if a.pre != b.pre {
        assert(a.pre.take(0) =~= b.pre.take(0));
        lemma_identifiers_order_is_total(a.pre, b.pre, 0);
        if a.pre.len() == 0 && b.pre.len() == 0 {
            assert(a.pre =~= b.pre);
        }
    } else if a.build != b.build {
        assert(a.build.take(0) =~= b.build.take(0));
        lemma_identifiers_order_is_total(a.build, b.build, 0);
    }
}

/// Versions are ordered by their parts as [`parts_before`] says: the numbers
/// decide, then the pre-release, then the build metadata.
pub proof fn law_parts_decide(
    text: Seq<char>,
    parts: VersionParts,
    other: Seq<char>,
    other_parts: VersionParts,
)
    requires
        spells(text, parts),
        spells(other, other_parts),
        read_as(text, semver_of(text)),
        read_as(other, semver_of(other)),
    ensures
        semver_of(text) is Some,
        semver_of(other) is Some,
        before(text_place(text), text_place(other)) == parts_before(parts, other_parts),
{
    law_before_is_total(text_place(text), text_place(other));
    if parts_before(parts, other_parts) {
        lemma_parts_before(parts, other_parts);
    } else if parts != other_parts {
        lemma_parts_order_is_total(parts, other_parts);
        lemma_parts_before(other_parts, parts);
    }
}

// ── A version has one text ──────────────────────────────────────────────────

proof fn lemma_digits_by_value(a: Seq<char>, b: Seq<char>)
    requires
        digits_only(a),
        digits_only(b),
        a.len() == b.len(),
        value_of(a) == value_of(b),
    ensures
        a == b,
    decreases a.len(),
{
    if a.len() > 0 {
        let x = value_of(a.drop_last());
        let y = value_of(b.drop_last());
        let c = a.last() as int - 48;
        let d = b.last() as int - 48;
        assert('0' <= a[a.len() - 1] && a[a.len() - 1] <= '9');
        assert('0' <= b[b.len() - 1] && b[b.len() - 1] <= '9');
        assert(x * 10 + c == y * 10 + d);
        assert(x == y && c == d);
        assert forall|i: int| 0 <= i < a.drop_last().len() implies '0' <= #[trigger] a.drop_last()[i]
            && a.drop_last()[i] <= '9' by {
            assert(a.drop_last()[i] == a[i]);
        }
        assert forall|i: int| 0 <= i < b.drop_last().len() implies '0' <= #[trigger] b.drop_last()[i]
            && b.drop_last()[i] <= '9' by {
            assert(b.drop_last()[i] == b[i]);
        }
        lemma_digits_by_value(a.drop_last(), b.drop_last());
        assert(a =~= a.drop_last().push(a.last()));
        assert(b =~= b.drop_last().push(b.last()));
    } else {
        assert(a =~= b);
    }
}

proof fn lemma_identifier_by_place(a: Seq<char>, b: Seq<char>, x: Seq<int>, y: Seq<int>)
    requires
        identifier(a),
        identifier(b),
        identifier_place(a) + x == identifier_place(b) + y,
    ensures
        a == b,
        x == y,
{
    let left = identifier_place(a) + x;
    let right = identifier_place(b) + y;
    assert(left[0] == identifier_place(a)[0]);
    assert(right[0] == identifier_place(b)[0]);
    if digits_only(a) {
        assert(digits_only(b));
        assert(left[1] == value_of(a) && right[1] == value_of(b));
        assert(left[2] == a.len() && right[2] == b.len());
        lemma_digits_by_value(a, b);
    } else {
        assert(!digits_only(b));
        assert forall|i: int| 0 <= i < a.len() implies left[i + 1] == #[trigger] a[i] as int
            && left[i + 1] > 0 by {
            assert(identifier_char(a[i]));
        }
        assert forall|i: int| 0 <= i < b.len() implies right[i + 1] == #[trigger] b[i] as int
            && right[i + 1] > 0 by {
            assert(identifier_char(b[i]));
        }
        assert(left[a.len() as int + 1] == 0);
        assert(right[b.len() as int + 1] == 0);
        if a.len() < b.len() {
            assert(right[a.len() as int + 1] == b[a.len() as int] as int);
        }
        if b.len() < a.len() {
            assert(left[b.len() as int + 1] == a[b.len() as int] as int);
        }
        assert forall|i: int| 0 <= i < a.len() implies a[i] == b[i] by {
            assert(left[i + 1] == a[i] as int);
            assert(right[i + 1] == b[i] as int);
        }
        assert(a =~= b);
    }
    assert(x =~= left.skip(identifier_place(a).len() as int));
    assert(y =~= right.skip(identifier_place(b).len() as int));
}

proof fn lemma_identifiers_by_place(
    a: Seq<Seq<char>>,
    b: Seq<Seq<char>>,
    x: Seq<int>,
    y: Seq<int>,
)
    requires
        forall|i: int| 0 <= i < a.len() ==> identifier(#[trigger] a[i]),
        forall|i: int| 0 <= i < b.len() ==> identifier(#[trigger] b[i]),
        identifiers_place(a) + x == identifiers_place(b) + y,
    ensures
        a == b,
        x == y,
    decreases a.len(),
{
    let left = identifiers_place(a) + x;
    let right = identifiers_place(b) + y;
    if a.len() > 0 {
        assert(left[0] == identifier_place(a[0])[0]);
    }
    if b.len() > 0 {
        assert(right[0] == identifier_place(b[0])[0]);
    }
    if a.len() == 0 {
        assert(left[0] == 0);
        assert(a =~= b);
        assert(x =~= left.skip(1));
        assert(y =~= right.skip(1));
    } else {
        if b.len() == 0 {
            assert(right[0] == 0);
        }
        let left_rest = identifiers_place(a.drop_first()) + x;
        let right_rest = identifiers_place(b.drop_first()) + y;
        assert(left =~= identifier_place(a[0]) + left_rest);
        assert(right =~= identifier_place(b[0]) + right_rest);
        lemma_identifier_by_place(a[0], b[0], left_rest, right_rest);
        lemma_identifiers_by_place(a.drop_first(), b.drop_first(), x, y);
        assert(a =~= seq![a[0]] + a.drop_first());
        assert(b =~= seq![b[0]] + b.drop_first());
    }
}

proof fn lemma_parts_by_place(a: VersionParts, b: VersionParts)
    requires
        well_formed(a),
        well_formed(b),
        parts_place(a) == parts_place(b),
    ensures
        a == b,
{
    let left = parts_place(a);
    let right = parts_place(b);
    let a_build = if a.build.len() == 0 {
        Seq::empty()
    } else {
        identifiers_place(a.build)
    };
    let b_build = if b.build.len() == 0 {
        Seq::empty()
    } else {
        identifiers_place(b.build)
    };
    assert(left[0] == a.major && left[1] == a.minor && left[2] == a.patch);
    assert(right[0] == b.major && right[1] == b.minor && right[2] == b.patch);
    assert(left[3] == (if a.pre.len() == 0 {
        1int
    } else {
        0int
    }));
    assert(right[3] == (if b.pre.len() == 0 {
        1int
    } else {
        0int
    }));
    if a.pre.len() == 0 {
        assert(a.pre =~= b.pre);
        assert(left.skip(4) =~= a_build);
        assert(right.skip(4) =~= b_build);
    } else {
        assert(left.skip(4) =~= identifiers_place(a.pre) + a_build);
        assert(right.skip(4) =~= identifiers_place(b.pre) + b_build);
        lemma_identifiers_by_place(a.pre, b.pre, a_build, b_build);
    }
    if a.build.len() == 0 || b.build.len() == 0 {
        assert(a.build =~= b.build);
    } else {
        assert(a_build + Seq::<int>::empty() =~= b_build + Seq::<int>::empty());
        lemma_identifiers_by_place(a.build, b.build, Seq::empty(), Seq::empty());
    }
}

/// A version has one text: two texts whose versions stand in one place are the
/// same.
pub proof fn law_version_has_one_text(text: Seq<char>, other: Seq<char>)
    requires
        semver_of(text) is Some,
        semver_of(other) is Some,
        read_as(text, semver_of(text)),
        read_as(other, semver_of(other)),
        text_place(text) == text_place(other),
    ensures
        text == other,
{
    let parts = choose|parts: VersionParts| spells(text, parts);
    let other_parts = choose|parts: VersionParts| spells(other, parts);
    lemma_parts_by_place(parts, other_parts);
}

} // verus!
