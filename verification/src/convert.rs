//! Conversion of single entries, with numbers that are derived from names and
//! version texts instead of places in a file.
use std::collections::hash_map::DefaultHasher;
use std::hash::{Hash, Hasher};
use vstd::prelude::*;
use vstd::seq_lib::lemma_flatten_concat;
use vstd::std_specs::hash::DefaultHasherAdditionalSpecFns;
use vstd::string::*;
use vstd::utf8::{encode_scalar, encode_utf8, encode_utf8_decode_utf8};

use crate::entry::{IndexDep, IndexEntry, IndexEntryView};
use crate::precedence::Admission;
use crate::response::{
    all_yanked, crate_of, crate_path, dependency_of, display_name, every_entry_yanked,
    highest_version, highest_version_of, make_crate, make_dependency, make_version, or_empty,
    package_name, published_name, version_of, versions_read,
};
use crate::time::{unix_epoch, utc_epoch, Timestamp};
use crate::types::{Crate, Dependency, Version};

verus! {

// ── Numbers from texts ──────────────────────────────────────────────────────

/// The pieces that a text hands to a hasher.
pub uninterp spec fn text_writes(text: Seq<char>) -> Seq<Seq<u8>>;

/// The pieces that a character hands to a hasher.
pub uninterp spec fn char_writes(c: char) -> Seq<Seq<u8>>;

/// `hash` of `str` into a [`DefaultHasher`]: the pieces that it hands to the
/// hasher depend on the text alone, and [`text_writes`] names them. Together
/// they are the bytes of the text and one byte `0xFF`.
#[verifier::external_body]
fn hash_text(text: &str, hasher: &mut DefaultHasher)
    ensures
        final(hasher)@ == old(hasher)@ + text_writes(text@),
        final(hasher)@.flatten() == old(hasher)@.flatten() + encode_utf8(text@).push(0xFF),
{
    text.hash(hasher)
}

/// `hash` of `char` into a [`DefaultHasher`]: the pieces that it hands to the
/// hasher depend on the character alone, and [`char_writes`] names them. This is
/// said of the character zero only: the order in which a machine stores the bytes
/// of a number shows in the pieces of any other.
#[verifier::external_body]
fn hash_char(c: char, hasher: &mut DefaultHasher)
    requires
        c == '\0',
    ensures
        final(hasher)@ == old(hasher)@ + char_writes(c),
{
    c.hash(hasher)
}

/// The pieces from which the number of a name and a version is computed.
pub open spec fn id_writes(name: Seq<char>, version: Seq<char>) -> Seq<Seq<u8>> {
    text_writes(name) + char_writes('\0') + text_writes(version)
}

/// The bytes from which the number of a name and a version is computed.
pub open spec fn id_bytes(name: Seq<char>, version: Seq<char>) -> Seq<u8> {
    encode_utf8(name).push(0xFF) + char_writes('\0').flatten() + encode_utf8(version).push(0xFF)
}

/// The number of a name and a version.
pub open spec fn id_of(name: Seq<char>, version: Seq<char>) -> u64 {
    DefaultHasher::spec_finish(id_writes(name, version))
}

/// Generate a stable synthetic `u64` ID from a crate name and version string.
///
/// The sparse index does not assign numeric IDs to versions; we derive one
/// deterministically so that the public `Version::id` field remains a `u64`.
pub fn synthesize_id(name: &str, version: &str) -> (id: u64)
    ensures
        id == id_of(name@, version@),
        id_writes(name@, version@).flatten() == id_bytes(name@, version@),
{
    let mut h = DefaultHasher::new();
    hash_text(name, &mut h);
    let ghost named = h@;
    // Separator ensures "ab" + "cd" differs from "a" + "bcd".
    hash_char('\0', &mut h);
    proof {
        lemma_flatten_concat(named, char_writes('\0'));
    }
    hash_text(version, &mut h);
    assert(h@ =~= id_writes(name@, version@));
    assert(h@.flatten() =~= id_bytes(name@, version@));
    h.finish()
}

/// The number of a name and a version is the hash of the name, a zero character
/// and the version, in this order.
pub proof fn law_id(name: Seq<char>, version: Seq<char>)
    ensures
        id_of(name, version) == DefaultHasher::spec_finish(
            text_writes(name) + char_writes('\0') + text_writes(version),
        ),
        id_bytes(name, version) == encode_utf8(name) + seq![0xFFu8] + char_writes('\0').flatten()
            + encode_utf8(version) + seq![0xFFu8],
{
    assert(id_bytes(name, version) =~= encode_utf8(name) + seq![0xFFu8] + char_writes(
        '\0',
    ).flatten() + encode_utf8(version) + seq![0xFFu8]);
}

/// The separator keeps names and versions apart: the number of a name and a
/// version is computed from bytes that no other name and version have.
pub proof fn law_id_bytes_tell_names_and_versions_apart(
    name: Seq<char>,
    version: Seq<char>,
    other_name: Seq<char>,
    other_version: Seq<char>,
)
    requires
        id_bytes(name, version) == id_bytes(other_name, other_version),
    ensures
        name == other_name,
        version == other_version,
{
    let a = encode_utf8(name);
    let b = encode_utf8(other_name);
    let all = id_bytes(name, version);
    lemma_no_ff(name);
    lemma_no_ff(other_name);
    assert(all == id_bytes(other_name, other_version));
    assert(all[a.len() as int] == 0xFF);
    assert(id_bytes(other_name, other_version)[b.len() as int] == 0xFF);
    if a.len() < b.len() {
        assert(id_bytes(other_name, other_version)[a.len() as int] == b[a.len() as int]);
    }
    if b.len() < a.len() {
        assert(all[b.len() as int] == a[b.len() as int]);
    }
    assert(a.len() == b.len());
    assert(a =~= b) by {
        assert forall|i: int| 0 <= i < a.len() implies a[i] == b[i] by {
            assert(all[i] == a[i]);
            assert(id_bytes(other_name, other_version)[i] == b[i]);
        }
    }
    let c = encode_utf8(version);
    let d = encode_utf8(other_version);
    let offset = a.len() + 1 + char_writes('\0').flatten().len();
    assert(all.len() == offset + c.len() + 1);
    assert(id_bytes(other_name, other_version).len() == offset + d.len() + 1);
    assert(c =~= d) by {
        assert forall|i: int| 0 <= i < c.len() implies c[i] == d[i] by {
            assert(all[offset + i] == c[i]);
            assert(id_bytes(other_name, other_version)[offset + i] == d[i]);
        }
    }
    encode_utf8_decode_utf8(name);
    encode_utf8_decode_utf8(other_name);
    encode_utf8_decode_utf8(version);
    encode_utf8_decode_utf8(other_version);
}

/// UTF-8 never holds the byte `0xFF`.
proof fn lemma_no_ff(text: Seq<char>)
    ensures
        forall|i: int| 0 <= i < encode_utf8(text).len() ==> #[trigger] encode_utf8(text)[i] != 0xFF,
    decreases text.len(),
{
    if text.len() > 0 {
        lemma_no_ff(text.drop_first());
        let scalar = text[0] as u32;
        let bytes = encode_scalar(scalar);
        assert(forall|i: int| 0 <= i < bytes.len() ==> #[trigger] bytes[i] != 0xFF) by {
            assert((scalar & 0x7F) as u8 != 0xFF) by (bit_vector);
            assert((0xC0 | ((scalar >> 6) & 0x1F) as u8) != 0xFF) by (bit_vector);
            assert((0xE0 | ((scalar >> 12) & 0x0F) as u8) != 0xFF) by (bit_vector);
            assert((0xF0 | ((scalar >> 18) & 0x7) as u8) != 0xFF) by (bit_vector);
            assert((0x80 | (scalar & 0x3F) as u8) != 0xFF) by (bit_vector);
            assert((0x80 | ((scalar >> 6) & 0x3F) as u8) != 0xFF) by (bit_vector);
            assert((0x80 | ((scalar >> 12) & 0x3F) as u8) != 0xFF) by (bit_vector);
        }
        assert(encode_utf8(text) =~= bytes + encode_utf8(text.drop_first()));
    }
}

// ── Times and versions ──────────────────────────────────────────────────────

/// Return the Unix epoch (1970-01-01T00:00:00Z).
///
/// Used as a placeholder for timestamp fields that are not available in the
/// sparse index.
pub fn epoch() -> (time: Timestamp)
    ensures
        time == unix_epoch(),
{
    utc_epoch()
}

/// The highest version that is not yanked, or the highest of all if every entry
/// is yanked.
pub open spec fn max_version_of(entries: Seq<IndexEntryView>) -> Option<Seq<char>> {
    if all_yanked(entries) {
        highest_version_of(entries, Admission { yanked: true, prereleases: true })
    } else {
        highest_version_of(entries, Admission { yanked: false, prereleases: true })
    }
}

/// Find the highest non-yanked version string from a slice of index entries.
///
/// Falls back to considering yanked versions if every entry is yanked. Returns
/// an empty string when `entries` is empty or when no entry that is considered
/// has a semantic version.
pub fn find_max_version(entries: &[IndexEntry]) -> (version: String)
    ensures
        version@ == or_empty(max_version_of(entries.deep_view())),
        versions_read(entries.deep_view()),
{
    let yanked = every_entry_yanked(entries);
    match highest_version(entries, Admission { yanked, prereleases: true }) {
        Some(text) => text,
        None => String::new(),
    }
}

/// Find the highest non-yanked **stable** (no pre-release segment) version.
pub fn find_max_stable_version(entries: &[IndexEntry]) -> (version: Option<String>)
    ensures
        version.deep_view() == highest_version_of(
            entries.deep_view(),
            Admission { yanked: false, prereleases: false },
        ),
        versions_read(entries.deep_view()),
{
    highest_version(entries, Admission { yanked: false, prereleases: false })
}

/// Convert a sparse index [`IndexEntry`] into a public [`Version`].
///
/// Fields not available in the index (license, downloads, timestamps, …) are
/// set to `None` / `0` / epoch defaults.
pub fn entry_to_version(entry: &IndexEntry) -> (version: Version)
    ensures
        version.deep_view() == version_of(
            entry.name@,
            entry.deep_view(),
            id_of(entry.name@, entry.vers@),
        ),
{
    let id = synthesize_id(entry.name.as_str(), entry.vers.as_str());
    make_version(entry.name.as_str(), entry, id, epoch())
}

/// Convert a sparse index [`IndexDep`] into a public [`Dependency`].
///
/// The `version_id` parameter should be the synthetic ID of the parent
/// version so that `Dependency::version_id` is correctly populated.
///
/// When a dependency is renamed (has a `package` field), `crate_id` is set to
/// the **actual** crate name (`package`), not the local rename (`name`).
pub fn index_dep_to_dependency(dep: &IndexDep, version_id: u64) -> (dependency: Dependency)
    ensures
        dependency.deep_view() == dependency_of(
            dep.deep_view(),
            id_of(dependency_of(dep.deep_view(), 0, 0).crate_id, dep.req@),
            version_id,
        ),
{
    let id = synthesize_id(package_name(dep).as_str(), dep.req.as_str());
    make_dependency(dep, id, version_id)
}

/// Build a [`Crate`] struct from a slice of index entries for one crate.
///
/// Metadata not available in the index (description, homepage, repository,
/// download counts, …) is set to `None` / `0`. Without an entry the crate goes
/// by the name that was asked for.
pub fn entries_to_crate(crate_name: &str, entries: &[IndexEntry]) -> (data: Crate)
    ensures
        data.deep_view() == crate_of(
            display_name(crate_name@, entries.deep_view()),
            entries.deep_view().map_values(|entry: IndexEntryView| id_of(entry.name, entry.vers)),
            or_empty(max_version_of(entries.deep_view())),
            highest_version_of(
                entries.deep_view(),
                Admission { yanked: false, prereleases: false },
            ),
            Some(crate_path(display_name(crate_name@, entries.deep_view()), "/versions"@)),
            unix_epoch(),
        ),
        versions_read(entries.deep_view()),
{
    let max_version = find_max_version(entries);
    let max_stable_version = find_max_stable_version(entries);
    let name = published_name(crate_name, entries);
    let ghost ids_of = entries.deep_view().map_values(
        |entry: IndexEntryView| id_of(entry.name, entry.vers),
    );
    let mut ids: Vec<u64> = Vec::new();
    for i in 0..entries.len()
        invariant
            ids_of == entries.deep_view().map_values(
                |entry: IndexEntryView| id_of(entry.name, entry.vers),
            ),
            ids@.len() == i,
            forall|j: int| 0 <= j < i ==> #[trigger] ids@[j] == ids_of[j],
    {
        ids.push(synthesize_id(entries[i].name.as_str(), entries[i].vers.as_str()));
    }
    assert(ids@ =~= ids_of);
    let versions_link = "/api/v1/crates/".to_owned().concat(name).concat("/versions");
    make_crate(name, ids, max_version, max_stable_version, Some(versions_link), epoch())
}

} // verus!
