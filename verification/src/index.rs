//! The sparse registry index: where a crate's file lies, what the file holds,
//! and what the registry's data says of it.
//!
//! The file of a crate lies at a path that depends on the length of its
//! lower-case name:
//!
//! | Name length | Path                      |
//! |-------------|---------------------------|
//! | 1           | `1/{name}`                |
//! | 2           | `2/{name}`                |
//! | 3           | `3/{first_char}/{name}`   |
//! | 4 and more  | `{first2}/{next2}/{name}` |
//!
//! It holds one JSON object a line, one line for each published version, the
//! oldest first; new versions are appended.
use url::ParseError as UrlError;
use vstd::prelude::*;
use vstd::string::*;
use vstd::utf8::{
    decode_utf8, encode_utf8, encode_utf8_valid_utf8, is_ascii_chars, is_ascii_chars_encode_utf8,
    is_char_boundary, valid_utf8,
};

use crate::error::{Error, NotFoundError};
use crate::text::{ascii_lower, ascii_lower_char, contains_char, lowercased};

verus! {

// ── Where a crate's file lies ───────────────────────────────────────────────

/// Base URL for the crates.io sparse registry index.
pub const SPARSE_INDEX_BASE: &'static str = "https://index.crates.io/";

/// The text between two places of its UTF-8 form.
pub open spec fn text_between(bytes: Seq<u8>, from: int, to: int) -> Seq<char> {
    decode_utf8(bytes.subrange(from, to))
}

/// Whether a lower-case name can be laid out as a path: the cuts that its
/// length asks for fall between characters.
pub open spec fn path_defined(lower: Seq<char>) -> bool {
    let bytes = encode_utf8(lower);
    if bytes.len() < 3 {
        true
    } else if bytes.len() == 3 {
        is_char_boundary(bytes, 1)
    } else {
        is_char_boundary(bytes, 2) && is_char_boundary(bytes, 4)
    }
}

/// The path of the file of a crate, from the crate's lower-case name.
pub open spec fn path_of(lower: Seq<char>) -> Seq<char> {
    let bytes = encode_utf8(lower);
    if bytes.len() == 0 {
        lower
    } else if bytes.len() == 1 {
        "1/"@ + lower
    } else if bytes.len() == 2 {
        "2/"@ + lower
    } else if bytes.len() == 3 {
        "3/"@ + text_between(bytes, 0, 1) + "/"@ + lower
    } else {
        text_between(bytes, 0, 2) + "/"@ + text_between(bytes, 2, 4) + "/"@ + lower
    }
}

/// The path of the file of a crate whose name is ASCII, from the crate's
/// lower-case name.
pub open spec fn ascii_path_of(lower: Seq<char>) -> Seq<char> {
    if lower.len() == 0 {
        lower
    } else if lower.len() == 1 {
        "1/"@ + lower
    } else if lower.len() == 2 {
        "2/"@ + lower
    } else if lower.len() == 3 {
        "3/"@ + lower.subrange(0, 1) + "/"@ + lower
    } else {
        lower.subrange(0, 2) + "/"@ + lower.subrange(2, 4) + "/"@ + lower
    }
}

/// On ASCII names the path can always be laid out, and it is the one of the
/// table: the length counts characters.
pub proof fn law_ascii_path(lower: Seq<char>)
    requires
        is_ascii_chars(lower),
    ensures
        path_defined(lower),
        path_of(lower) == ascii_path_of(lower),
{
    let bytes = encode_utf8(lower);
    is_ascii_chars_encode_utf8(lower);
    lemma_ascii_boundaries(lower);
    if bytes.len() == 3 {
        lemma_ascii_between(lower, 0, 1);
    } else if bytes.len() > 3 {
        lemma_ascii_between(lower, 0, 2);
        lemma_ascii_between(lower, 2, 4);
    }
}

proof fn lemma_ascii_boundaries(lower: Seq<char>)
    requires
        is_ascii_chars(lower),
    ensures
        forall|i: int| 0 <= i <= lower.len() ==> is_char_boundary(encode_utf8(lower), i),
{
    let bytes = encode_utf8(lower);
    is_ascii_chars_encode_utf8(lower);
    encode_utf8_valid_utf8(lower);
    vstd::utf8::is_char_boundary_start_end_of_seq(bytes);
    assert forall|i: int| 0 <= i <= lower.len() implies is_char_boundary(bytes, i) by {
        if i < lower.len() {
            vstd::utf8::is_char_boundary_iff_is_leading_byte(bytes, i);
        }
    }
}

proof fn lemma_ascii_between(lower: Seq<char>, from: int, to: int)
    requires
        is_ascii_chars(lower),
        0 <= from <= to <= lower.len(),
    ensures
        text_between(encode_utf8(lower), from, to) == lower.subrange(from, to),
{
    let part = lower.subrange(from, to);
    is_ascii_chars_encode_utf8(lower);
    assert(is_ascii_chars(part));
    is_ascii_chars_encode_utf8(part);
    assert(encode_utf8(part) =~= encode_utf8(lower).subrange(from, to));
    vstd::utf8::encode_utf8_decode_utf8(part);
}

/// The table of paths, letter by letter, for ASCII names.
pub proof fn law_path_table(lower: Seq<char>)
    requires
        is_ascii_chars(lower),
    ensures
        lower.len() == 0 ==> path_of(lower) == Seq::<char>::empty(),
        lower.len() == 1 ==> path_of(lower) == seq!['1', '/'] + lower,
        lower.len() == 2 ==> path_of(lower) == seq!['2', '/'] + lower,
        lower.len() == 3 ==> path_of(lower) == seq!['3', '/', lower[0], '/'] + lower,
        lower.len() >= 4 ==> path_of(lower) == seq![
            lower[0],
            lower[1],
            '/',
            lower[2],
            lower[3],
            '/',
        ] + lower,
        path_defined(lower),
{
    reveal_strlit("1/");
    reveal_strlit("2/");
    reveal_strlit("3/");
    reveal_strlit("/");
    law_ascii_path(lower);
    let path = path_of(lower);
    if lower.len() == 0 {
        assert(path =~= Seq::<char>::empty());
    } else if lower.len() == 1 {
        assert(path =~= seq!['1', '/'] + lower);
    } else if lower.len() == 2 {
        assert(path =~= seq!['2', '/'] + lower);
    } else if lower.len() == 3 {
        assert(path =~= seq!['3', '/', lower[0], '/'] + lower);
    } else {
        assert(path =~= seq![lower[0], lower[1], '/', lower[2], lower[3], '/'] + lower);
    }
}

proof fn lemma_encode_concat(a: Seq<char>, b: Seq<char>)
    ensures
        encode_utf8(a + b) == encode_utf8(a) + encode_utf8(b),
    decreases a.len(),
{
    if a.len() == 0 {
        assert(a + b =~= b);
        assert(encode_utf8(a) + encode_utf8(b) =~= encode_utf8(b));
    } else {
        lemma_encode_concat(a.drop_first(), b);
        assert((a + b).drop_first() =~= a.drop_first() + b);
        assert(encode_utf8(a + b) =~= encode_utf8(a) + encode_utf8(b));
    }
}

proof fn lemma_cut(a: Seq<char>, b: Seq<char>)
    ensures
        is_char_boundary(encode_utf8(a + b), encode_utf8(a).len() as int),
        encode_utf8(a + b) == encode_utf8(a) + encode_utf8(b),
{
    let bytes = encode_utf8(a + b);
    lemma_encode_concat(a, b);
    encode_utf8_valid_utf8(a + b);
    encode_utf8_valid_utf8(b);
    vstd::utf8::is_char_boundary_start_end_of_seq(bytes);
    vstd::utf8::is_char_boundary_start_end_of_seq(encode_utf8(b));
    if encode_utf8(b).len() > 0 {
        let at = encode_utf8(a).len() as int;
        assert(bytes[at] == encode_utf8(b)[0]);
        vstd::utf8::is_char_boundary_iff_not_is_continuation_byte(encode_utf8(b), 0);
        vstd::utf8::is_char_boundary_iff_not_is_continuation_byte(bytes, at);
    }
}

/// The path of a name that takes four bytes or more: where its first two bytes
/// are whole characters and so are the next two, they are the directories. The
/// letters count by the bytes that they take.
pub proof fn law_path_by_bytes(first: Seq<char>, next: Seq<char>, rest: Seq<char>)
    requires
        encode_utf8(first).len() == 2,
        encode_utf8(next).len() == 2,
    ensures
        path_defined(first + next + rest),
        path_of(first + next + rest) == first + "/"@ + next + "/"@ + (first + next + rest),
{
    let lower = first + next + rest;
    let bytes = encode_utf8(lower);
    lemma_cut(first + next, rest);
    lemma_encode_concat(first, next);
    assert(lower =~= first + (next + rest));
    lemma_cut(first, next + rest);
    assert(bytes.subrange(0, 2) =~= encode_utf8(first));
    assert(bytes.subrange(2, 4) =~= encode_utf8(next));
    vstd::utf8::encode_utf8_decode_utf8(first);
    vstd::utf8::encode_utf8_decode_utf8(next);
}

/// The path of a name that takes three bytes, the first of them a character, and
/// of shorter names.
pub proof fn law_short_path_by_bytes(first: Seq<char>, rest: Seq<char>)
    ensures
        encode_utf8(first).len() == 1 && encode_utf8(rest).len() == 2 ==> path_defined(first + rest)
            && path_of(first + rest) == "3/"@ + first + "/"@ + (first + rest),
        encode_utf8(first).len() == 2 ==> path_defined(first) && path_of(first) == "2/"@ + first,
        encode_utf8(first).len() == 1 ==> path_defined(first) && path_of(first) == "1/"@ + first,
        encode_utf8(first).len() == 0 ==> path_defined(first) && path_of(first) == first,
{
    lemma_cut(first, rest);
    let bytes = encode_utf8(first + rest);
    if encode_utf8(first).len() == 1 {
        assert(bytes.subrange(0, 1) =~= encode_utf8(first));
        vstd::utf8::encode_utf8_decode_utf8(first);
    }
}

/// The file of a crate lies below the base of the index, at the path of the
/// crate's lower-case name; for an ASCII name the letters `A` to `Z` are put in
/// lower case. ASCII names can always be laid out, and others where their
/// lower-case name can be cut.
pub proof fn law_file_url(crate_name: Seq<char>)
    ensures
        file_url_of(crate_name) == "https://index.crates.io/"@ + path_of(lowercased(crate_name)),
        !is_ascii_chars(crate_name) ==> name_has_path(crate_name) == path_defined(
            lowercased(crate_name),
        ),
        is_ascii_chars(crate_name) ==> name_has_path(crate_name) && ascii_file_url_of(crate_name)
            == "https://index.crates.io/"@ + path_of(
            crate_name.map_values(
                |c: char|
                    if 'A' <= c && c <= 'Z' {
                        ((c as u32) + 32) as char
                    } else {
                        c
                    },
            ),
        ),
{
    if is_ascii_chars(crate_name) {
        let lower = ascii_lower(crate_name);
        lemma_ascii_lower_is_ascii(crate_name);
        law_ascii_path(lower);
        assert(lower =~= crate_name.map_values(
            |c: char|
                if 'A' <= c && c <= 'Z' {
                    ((c as u32) + 32) as char
                } else {
                    c
                },
        ));
    }
}

/// No two ASCII names share a path: what differs in lower case lies in another
/// file.
pub proof fn law_paths_tell_ascii_names_apart(lower: Seq<char>, other: Seq<char>)
    requires
        is_ascii_chars(lower),
        is_ascii_chars(other),
        path_of(lower) == path_of(other),
    ensures
        lower == other,
{
    reveal_strlit("1/");
    reveal_strlit("2/");
    reveal_strlit("3/");
    reveal_strlit("/");
    law_ascii_path(lower);
    law_ascii_path(other);
    let path = path_of(lower);
    assert(path.skip(path.len() - lower.len()) =~= lower);
    assert(path.skip(path.len() - other.len()) =~= other);
}

/// ASCII names that differ in case alone lie in the same file.
pub proof fn law_case_is_ignored(crate_name: Seq<char>, other: Seq<char>)
    requires
        crate_name.len() == other.len(),
        forall|i: int|
            0 <= i < crate_name.len() ==> ascii_lower_char(#[trigger] crate_name[i])
                == ascii_lower_char(other[i]),
    ensures
        ascii_file_url_of(crate_name) == ascii_file_url_of(other),
{
    assert(ascii_lower(crate_name) =~= ascii_lower(other));
}

/// Whether a name can be laid out as a path once it is in lower case.
pub open spec fn name_has_path(crate_name: Seq<char>) -> bool {
    is_ascii_chars(crate_name) || path_defined(lowercased(crate_name))
}

/// The URL of the file of a crate, as it is put together from the crate's name.
pub open spec fn file_url_of(crate_name: Seq<char>) -> Seq<char> {
    SPARSE_INDEX_BASE@ + path_of(lowercased(crate_name))
}

/// The URL of the file of a crate whose name is ASCII.
pub open spec fn ascii_file_url_of(crate_name: Seq<char>) -> Seq<char> {
    SPARSE_INDEX_BASE@ + ascii_path_of(ascii_lower(crate_name))
}

pub(crate) proof fn lemma_ascii_lower_is_ascii(text: Seq<char>)
    requires
        is_ascii_chars(text),
    ensures
        is_ascii_chars(ascii_lower(text)),
{
    assert forall|i: int| 0 <= i < text.len() implies '\0' <= #[trigger] ascii_lower(text)[i]
        && ascii_lower(text)[i] <= '\u{7f}' by {
        assert('\0' <= text[i] && text[i] <= '\u{7f}');
    }
}

/// Whether `lower` can be laid out as a path.
pub fn can_lay_out(lower: &str) -> (yes: bool)
    ensures
        yes == path_defined(lower@),
{
    let length = lower.as_bytes().len();
    if length < 3 {
        true
    } else if length == 3 {
        lower.is_char_boundary(1)
    } else {
        lower.is_char_boundary(2) && lower.is_char_boundary(4)
    }
}

/// The path of the file of the crate whose lower-case name is `lower`.
pub fn lay_out(lower: &str) -> (path: String)
    requires
        path_defined(lower@),
    ensures
        path@ == path_of(lower@),
{
    let ghost bytes = encode_utf8(lower@);
    let length = lower.as_bytes().len();
    if length == 0 {
        lower.to_owned()
    } else if length == 1 {
        "1/".to_owned().concat(lower)
    } else if length == 2 {
        "2/".to_owned().concat(lower)
    } else if length == 3 {
        let (first, _) = lower.split_at(1);
        proof {
            lemma_text_of_bytes(first@, bytes, 0, 1);
        }
        "3/".to_owned().concat(first).concat("/").concat(lower)
    } else {
        let (first4, _) = lower.split_at(4);
        proof {
            encode_utf8_valid_utf8(lower@);
            lemma_boundary_of_prefix(bytes, 2, 4);
        }
        assert(first4.spec_bytes() =~= bytes.subrange(0, 4));
        let (first2, next2) = first4.split_at(2);
        proof {
            assert(bytes.subrange(0, 4).subrange(0, 2) =~= bytes.subrange(0, 2));
            assert(bytes.subrange(0, 4).subrange(2, 4) =~= bytes.subrange(2, 4));
            lemma_text_of_bytes(first2@, bytes, 0, 2);
            lemma_text_of_bytes(next2@, bytes, 2, 4);
        }
        first2.to_owned().concat("/").concat(next2).concat("/").concat(lower)
    }
}

proof fn lemma_text_of_bytes(text: Seq<char>, bytes: Seq<u8>, from: int, to: int)
    requires
        encode_utf8(text) == bytes.subrange(from, to),
    ensures
        text == text_between(bytes, from, to),
{
    vstd::utf8::encode_utf8_decode_utf8(text);
}

proof fn lemma_boundary_of_prefix(bytes: Seq<u8>, inner: int, outer: int)
    requires
        valid_utf8(bytes),
        is_char_boundary(bytes, inner),
        is_char_boundary(bytes, outer),
        0 <= inner < outer <= bytes.len(),
    ensures
        is_char_boundary(bytes.subrange(0, outer), inner),
{
    let prefix = bytes.subrange(0, outer);
    vstd::utf8::valid_utf8_split(bytes, outer);
    vstd::utf8::is_char_boundary_iff_not_is_continuation_byte(bytes, inner);
    vstd::utf8::is_char_boundary_iff_not_is_continuation_byte(prefix, inner);
}

/// Compute the sparse-index URL path component for `crate_name`.
///
/// The name is lowercased before computing the path, matching cargo's behaviour.
pub fn index_path(crate_name: &str) -> (path: String)
    requires
        name_has_path(crate_name@),
    ensures
        path@ == path_of(lowercased(crate_name@)),
        is_ascii_chars(crate_name@) ==> path@ == ascii_path_of(ascii_lower(crate_name@)),
{
    let name = crate_name.to_lowercase();
    proof {
        if is_ascii_chars(crate_name@) {
            lemma_ascii_lower_is_ascii(crate_name@);
            law_ascii_path(name@);
        }
    }
    lay_out(name.as_str())
}

/// The URL of the file of a crate: the base of the index and the crate's path.
pub fn index_file_url(crate_name: &str) -> (url: String)
    requires
        name_has_path(crate_name@),
    ensures
        url@ == file_url_of(crate_name@),
        is_ascii_chars(crate_name@) ==> url@ == ascii_file_url_of(crate_name@),
{
    SPARSE_INDEX_BASE.to_owned().concat(index_path(crate_name).as_str())
}

// ── URLs ────────────────────────────────────────────────────────────────────

/// The URL that a text is, in its normal form, or why it is none.
pub uninterp spec fn parsed_url(text: Seq<char>) -> Result<Seq<char>, UrlError>;

/// A character that stands for itself in the path of a URL and has no meaning
/// of its own there but for the slash, which ends a segment.
pub open spec fn plain_in_path(c: char) -> bool {
    ||| 'a' <= c && c <= 'z'
    ||| 'A' <= c && c <= 'Z'
    ||| '0' <= c && c <= '9'
    ||| c == '-'
    ||| c == '_'
    ||| c == '/'
}

/// The base of the index with nothing behind it but characters that stand for
/// themselves.
pub open spec fn plain_index_url(text: Seq<char>) -> bool {
    let base = SPARSE_INDEX_BASE@;
    &&& base.len() <= text.len()
    &&& text.subrange(0, base.len() as int) == base
    &&& forall|i: int| base.len() <= i < text.len() ==> plain_in_path(#[trigger] text[i])
}

/// An outcome with its text as characters.
pub open spec fn text_outcome(outcome: Result<String, UrlError>) -> Result<Seq<char>, UrlError> {
    match outcome {
        Ok(text) => Ok(text@),
        Err(error) => Err(error),
    }
}

/// `url::Url::parse`: the outcome depends on the text alone, and
/// [`parsed_url`] names it. Below the base of the index a path of letters,
/// digits, `-`, `_` and `/` is in its normal form as it stands: it has no
/// percent sign, no dot, no query and no fragment.
#[verifier::external_body]
fn parse_url(text: &str) -> (outcome: Result<String, UrlError>)
    ensures
        text_outcome(outcome) == parsed_url(text@),
        plain_index_url(text@) ==> outcome is Ok && (outcome->Ok_0)@ == text@,
{
    url::Url::parse(text).map(String::from)
}

/// A name that crates.io accepts for a crate: ASCII letters, digits, `-` and `_`.
pub open spec fn ordinary_name(crate_name: Seq<char>) -> bool {
    forall|i: int|
        0 <= i < crate_name.len() ==> plain_in_path(#[trigger] crate_name[i]) && crate_name[i]
            != '/'
}

pub(crate) proof fn lemma_ordinary_url(crate_name: Seq<char>)
    requires
        ordinary_name(crate_name),
    ensures
        is_ascii_chars(crate_name),
        plain_index_url(ascii_file_url_of(crate_name)),
{
    assert forall|i: int| 0 <= i < crate_name.len() implies '\0' <= #[trigger] crate_name[i]
        && crate_name[i] <= '\u{7f}' by {
        assert(plain_in_path(crate_name[i]));
    }
    let lower = ascii_lower(crate_name);
    assert forall|i: int| 0 <= i < lower.len() implies plain_in_path(#[trigger] lower[i]) by {
        assert(plain_in_path(crate_name[i]));
    }
    reveal_strlit("1/");
    reveal_strlit("2/");
    reveal_strlit("3/");
    reveal_strlit("/");
    let path = ascii_path_of(lower);
    assert forall|i: int| 0 <= i < path.len() implies plain_in_path(#[trigger] path[i]) by {
        if lower.len() <= 2 {
            if 2 <= i && lower.len() > 0 {
                assert(path[i] == lower[i - 2]);
            }
        } else if lower.len() == 3 {
            if i == 2 {
                assert(path[i] == lower[0]);
            } else if i > 3 {
                assert(path[i] == lower[i - 4]);
            }
        } else {
            if i < 2 {
                assert(path[i] == lower[i]);
            } else if 3 <= i < 5 {
                assert(path[i] == lower[i - 1]);
            } else if i > 5 {
                assert(path[i] == lower[i - 6]);
            }
        }
    }
    let url = ascii_file_url_of(crate_name);
    let base = SPARSE_INDEX_BASE@;
    assert(url.subrange(0, base.len() as int) =~= base);
    assert forall|i: int| base.len() <= i < url.len() implies plain_in_path(#[trigger] url[i]) by {
        assert(url[i] == path[i - base.len()]);
    }
}

/// Return the full sparse-index URL for `crate_name`, or an [`Error::NotFound`]
/// if the name contains a `/` (which the index does not support).
pub fn build_index_url(crate_name: &str) -> (url: Result<String, Error>)
    requires
        name_has_path(crate_name@),
    ensures
        crate_name@.contains('/') ==> (url matches Err(Error::NotFound(error)) && error.url@
            == file_url_of(crate_name@) && (is_ascii_chars(crate_name@) ==> error.url@
            == ascii_file_url_of(crate_name@))),
        !crate_name@.contains('/') ==> match parsed_url(file_url_of(crate_name@)) {
            Ok(normal) => url matches Ok(text) && text@ == normal,
            Err(error) => url == Err::<String, Error>(Error::Url(error)),
        },
        ordinary_name(crate_name@) ==> (url matches Ok(text) && text@ == ascii_file_url_of(
            crate_name@,
        )),
{
    let file_url = index_file_url(crate_name);
    if contains_char(crate_name, '/') {
        assert(!ordinary_name(crate_name@));
        return Err(Error::NotFound(NotFoundError { url: file_url }));
    }
    proof {
        if ordinary_name(crate_name@) {
            lemma_ordinary_url(crate_name@);
        }
    }
    match parse_url(file_url.as_str()) {
        Ok(url) => Ok(url),
        Err(error) => Err(Error::from(error)),
    }
}

} // verus!
