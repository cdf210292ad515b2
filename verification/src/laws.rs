//! What holds of the answers as a whole: how the parts of an answer go
//! together, and how two answers go together.
use vstd::prelude::*;

use crate::convert::max_version_of;
use crate::entry::IndexEntryView;
use crate::lookup::full_crate_of;
use crate::precedence::{law_winner, rank, takes_part, winner, Admission, Candidate};
use crate::response::{
    all_yanked, candidates_of, dependencies_of, first_of_version, highest_version_of, or_empty,
    response_of, version_ids, versions_read,
};
use crate::semantic::{
    before, law_before_is_total, law_version_has_one_text, released, semver_of, text_place,
};
use crate::time::Timestamp;
use crate::types::{
    paired, version_numbered, DependencyView, FullCrateView, ReverseDependencyView, VersionView,
};

verus! {

// ── The highest version ─────────────────────────────────────────────────────

/// Whether an entry may be the highest version of its file: its text is a
/// semantic version, and it is not yanked unless all entries are.
pub open spec fn eligible(entries: Seq<IndexEntryView>, i: int) -> bool {
    &&& 0 <= i < entries.len()
    &&& semver_of(entries[i].vers) is Some
    &&& !entries[i].yanked || forall|k: int|
        0 <= k < entries.len() ==> (#[trigger] entries[k]).yanked
}

/// Whether an entry may be the highest stable version of its file: it may be
/// the highest version, and has no pre-release part.
pub open spec fn stable(entries: Seq<IndexEntryView>, i: int) -> bool {
    eligible(entries, i) && released(semver_of(entries[i].vers)->0)
}

/// The place of an entry's version in the order of versions.
pub open spec fn place_in_order(entry: IndexEntryView) -> Seq<int> {
    text_place(entry.vers)
}

pub(crate) proof fn lemma_highest(entries: Seq<IndexEntryView>, admission: Admission)
    ensures
        match highest_version_of(entries, admission) {
            Some(text) => exists|i: int|
                #![trigger entries[i]]
                0 <= i < entries.len() && takes_part(candidates_of(entries)[i], admission) && text
                    == entries[i].vers && forall|j: int|
                    0 <= j < entries.len() && takes_part(
                        #[trigger] candidates_of(entries)[j],
                        admission,
                    ) ==> !before(place_in_order(entries[i]), place_in_order(entries[j])),
            None => forall|j: int|
                0 <= j < entries.len() ==> !takes_part(
                    #[trigger] candidates_of(entries)[j],
                    admission,
                ),
        },
{
    let candidates = candidates_of(entries);
    law_winner(candidates, admission);
    if let Some(i) = winner(candidates, admission) {
        let winning_entry = entries[i];
        assert forall|j: int|
            0 <= j < entries.len() && takes_part(
                #[trigger] candidates[j],
                admission,
            ) implies !before(place_in_order(entries[i]), place_in_order(entries[j])) by {
            assert(rank(candidates[j]) == place_in_order(entries[j]));
            assert(rank(candidates[i]) == place_in_order(entries[i]));
        }
    }
}

/// The highest version of a crate is the text of an entry that is not yanked,
/// unless all are, and no such entry is higher. It is empty only where no such
/// entry has a semantic version.
pub proof fn law_max_version(queried_name: Seq<char>, entries: Seq<IndexEntryView>, now: Timestamp)
    ensures
        ({
            let max_version = response_of(queried_name, entries, now).crate_data.max_version;
            if exists|i: int| eligible(entries, i) {
                exists|i: int| #[trigger]
                    eligible(entries, i) && max_version == entries[i].vers && forall|j: int|
                        #[trigger] eligible(entries, j) ==> !before(
                            place_in_order(entries[i]),
                            place_in_order(entries[j]),
                        )
            } else {
                max_version == Seq::<char>::empty()
            }
        }),
{
    let admission = Admission { yanked: all_yanked(entries), prereleases: true };
    let candidates = candidates_of(entries);
    lemma_highest(entries, admission);
    assert forall|i: int| 0 <= i < entries.len() implies eligible(entries, i) == takes_part(
        #[trigger] candidates[i],
        admission,
    ) by {}
    match highest_version_of(entries, admission) {
        Some(text) => {
            let i = choose|i: int|
                #![trigger entries[i]]
                0 <= i < entries.len() && takes_part(candidates[i], admission) && text
                    == entries[i].vers && forall|j: int|
                    0 <= j < entries.len() && takes_part(
                        #[trigger] candidates[j],
                        admission,
                    ) ==> !before(place_in_order(entries[i]), place_in_order(entries[j]));
            assert(eligible(entries, i));
            assert forall|j: int| #[trigger] eligible(entries, j) implies !before(
                place_in_order(entries[i]),
                place_in_order(entries[j]),
            ) by {
                assert(takes_part(candidates[j], admission));
            }
        },
        None => {
            assert forall|i: int| !eligible(entries, i) by {
                if eligible(entries, i) {
                    assert(takes_part(candidates[i], admission));
                }
            }
        },
    }
}

/// The highest stable version of a crate is the text of an entry without a
/// pre-release part that is not yanked, unless all are, and no such entry is
/// higher. It is absent only where there is no such entry.
pub proof fn law_max_stable_version(
    queried_name: Seq<char>,
    entries: Seq<IndexEntryView>,
    now: Timestamp,
)
    ensures
        match response_of(queried_name, entries, now).crate_data.max_stable_version {
            Some(text) => exists|i: int| #[trigger]
                stable(entries, i) && text == entries[i].vers && forall|j: int|
                    #[trigger] stable(entries, j) ==> !before(
                        place_in_order(entries[i]),
                        place_in_order(entries[j]),
                    ),
            None => forall|i: int| !stable(entries, i),
        },
{
    let admission = Admission { yanked: all_yanked(entries), prereleases: false };
    let candidates = candidates_of(entries);
    lemma_highest(entries, admission);
    assert forall|i: int| 0 <= i < entries.len() implies stable(entries, i) == takes_part(
        #[trigger] candidates[i],
        admission,
    ) by {}
    match highest_version_of(entries, admission) {
        Some(text) => {
            let i = choose|i: int|
                #![trigger entries[i]]
                0 <= i < entries.len() && takes_part(candidates[i], admission) && text
                    == entries[i].vers && forall|j: int|
                    0 <= j < entries.len() && takes_part(
                        #[trigger] candidates[j],
                        admission,
                    ) ==> !before(place_in_order(entries[i]), place_in_order(entries[j]));
            assert(stable(entries, i));
            assert forall|j: int| #[trigger] stable(entries, j) implies !before(
                place_in_order(entries[i]),
                place_in_order(entries[j]),
            ) by {
                assert(takes_part(candidates[j], admission));
            }
        },
        None => {
            assert forall|i: int| !stable(entries, i) by {
                if stable(entries, i) {
                    assert(takes_part(candidates[i], admission));
                }
            }
        },
    }
}

/// The highest stable version is not above the highest version.
pub proof fn law_max_stable_version_is_not_above_max_version(
    queried_name: Seq<char>,
    entries: Seq<IndexEntryView>,
    now: Timestamp,
)
    ensures
        ({
            let data = response_of(queried_name, entries, now).crate_data;
            data.max_stable_version matches Some(text) ==> {
                &&& semver_of(text) is Some
                &&& semver_of(data.max_version) is Some
                &&& !before(text_place(data.max_version), text_place(text))
            }
        }),
{
    law_max_version(queried_name, entries, now);
    law_max_stable_version(queried_name, entries, now);
    let data = response_of(queried_name, entries, now).crate_data;
    if let Some(text) = data.max_stable_version {
        let i = choose|i: int| #[trigger] stable(entries, i) && text == entries[i].vers;
        assert(eligible(entries, i));
    }
}

/// The two ways to describe a crate name the same highest version, and the same
/// highest stable version wherever one entry is not yanked.
pub proof fn law_descriptions_agree(
    queried_name: Seq<char>,
    entries: Seq<IndexEntryView>,
    now: Timestamp,
)
    ensures
        ({
            let data = response_of(queried_name, entries, now).crate_data;
            &&& data.max_version == or_empty(max_version_of(entries))
            &&& !all_yanked(entries) ==> data.max_stable_version == highest_version_of(
                entries,
                Admission { yanked: false, prereleases: false },
            )
        }),
{
}

proof fn lemma_reordered(entries: Seq<IndexEntryView>, other: Seq<IndexEntryView>)
    requires
        entries.to_multiset() == other.to_multiset(),
    ensures
        forall|entry: IndexEntryView| entries.contains(entry) == other.contains(entry),
        all_yanked(entries) == all_yanked(other),
{
    entries.to_multiset_ensures();
    other.to_multiset_ensures();
    assert forall|entry: IndexEntryView| entries.contains(entry) == other.contains(entry) by {
        assert(entries.contains(entry) <==> entries.to_multiset().count(entry) > 0);
        assert(other.contains(entry) <==> other.to_multiset().count(entry) > 0);
    }
    if all_yanked(entries) {
        assert forall|i: int| 0 <= i < other.len() implies (#[trigger] other[i]).yanked by {
            assert(entries.contains(other[i]));
        }
    }
    if all_yanked(other) {
        assert forall|i: int| 0 <= i < entries.len() implies (#[trigger] entries[i]).yanked by {
            assert(other.contains(entries[i]));
        }
    }
}

/// Whether an entry takes part in the choice of a highest version.
spec fn admitted(entry: IndexEntryView, admission: Admission) -> bool {
    takes_part(
        Candidate { version: semver_of(entry.vers), yanked: entry.yanked },
        admission,
    )
}

/// The highest text is that of an admitted entry, and no admitted entry is
/// higher.
spec fn tops(entries: Seq<IndexEntryView>, admission: Admission, top: IndexEntryView) -> bool {
    &&& entries.contains(top)
    &&& admitted(top, admission)
    &&& forall|entry: IndexEntryView| #[trigger]
        entries.contains(entry) && admitted(entry, admission) ==> !before(
            place_in_order(top),
            place_in_order(entry),
        )
}

proof fn lemma_top(entries: Seq<IndexEntryView>, admission: Admission) -> (top: IndexEntryView)
    ensures
        match highest_version_of(entries, admission) {
            Some(text) => tops(entries, admission, top) && text == top.vers,
            None => forall|entry: IndexEntryView| #[trigger]
                entries.contains(entry) ==> !admitted(entry, admission),
        },
{
    let candidates = candidates_of(entries);
    lemma_highest(entries, admission);
    assert forall|j: int| 0 <= j < entries.len() implies admitted(#[trigger] entries[j], admission)
        == takes_part(candidates[j], admission) by {}
    match highest_version_of(entries, admission) {
        Some(text) => {
            let i = choose|i: int|
                #![trigger entries[i]]
                0 <= i < entries.len() && takes_part(candidates[i], admission) && text
                    == entries[i].vers && forall|j: int|
                    0 <= j < entries.len() && takes_part(
                        #[trigger] candidates[j],
                        admission,
                    ) ==> !before(place_in_order(entries[i]), place_in_order(entries[j]));
            let top = entries[i];
            assert forall|entry: IndexEntryView| #[trigger]
                entries.contains(entry) && admitted(entry, admission) implies !before(
                place_in_order(top),
                place_in_order(entry),
            ) by {
                let j = choose|j: int| 0 <= j < entries.len() && entries[j] == entry;
                assert(takes_part(candidates[j], admission));
            }
            top
        },
        None => {
            assert forall|entry: IndexEntryView| #[trigger] entries.contains(entry) implies
                !admitted(entry, admission) by {
                let j = choose|j: int| 0 <= j < entries.len() && entries[j] == entry;
                assert(!takes_part(candidates[j], admission));
            }
            arbitrary()
        },
    }
}

proof fn lemma_highest_of_reordered(
    entries: Seq<IndexEntryView>,
    other: Seq<IndexEntryView>,
    admission: Admission,
)
    requires
        entries.to_multiset() == other.to_multiset(),
    ensures
        match (highest_version_of(entries, admission), highest_version_of(other, admission)) {
            (Some(text), Some(other_text)) => text_place(text) == text_place(other_text),
            (None, None) => true,
            _ => false,
        },
        versions_read(entries) ==> highest_version_of(entries, admission) == highest_version_of(
            other,
            admission,
        ),
{
    lemma_reordered(entries, other);
    let top = lemma_top(entries, admission);
    let other_top = lemma_top(other, admission);
    if highest_version_of(entries, admission) is Some {
        assert(other.contains(top));
    }
    if highest_version_of(other, admission) is Some {
        assert(entries.contains(other_top));
        law_before_is_total(place_in_order(top), place_in_order(other_top));
        if versions_read(entries) {
            let i = choose|i: int| 0 <= i < entries.len() && entries[i] == top;
            let j = choose|j: int| 0 <= j < entries.len() && entries[j] == other_top;
            assert(entries[i].vers == top.vers && entries[j].vers == other_top.vers);
            law_version_has_one_text(top.vers, other_top.vers);
        }
    }
}

/// The highest version and the highest stable version do not depend on the
/// order of the entries: they are present together and stand in the same place,
/// and since a version has one text they are the same texts.
pub proof fn law_order_of_the_entries_does_not_matter(
    queried_name: Seq<char>,
    entries: Seq<IndexEntryView>,
    other: Seq<IndexEntryView>,
    now: Timestamp,
    later: Timestamp,
)
    requires
        entries.to_multiset() == other.to_multiset(),
    ensures
        ({
            let data = response_of(queried_name, entries, now).crate_data;
            let other_data = response_of(queried_name, other, later).crate_data;
            &&& text_place(data.max_version) == text_place(other_data.max_version)
            &&& match (data.max_stable_version, other_data.max_stable_version) {
                (Some(text), Some(other_text)) => text_place(text) == text_place(other_text),
                (None, None) => true,
                _ => false,
            }
            &&& versions_read(entries) ==> data.max_version == other_data.max_version
            &&& versions_read(entries) ==> data.max_stable_version == other_data.max_stable_version
            &&& versions_read(entries) ==> max_version_of(entries) == max_version_of(other)
        }),
{
    lemma_reordered(entries, other);
    let yanked = all_yanked(entries);
    lemma_highest_of_reordered(entries, other, Admission { yanked, prereleases: true });
    lemma_highest_of_reordered(entries, other, Admission { yanked, prereleases: false });
}

// ── The versions of a crate ─────────────────────────────────────────────────

/// A crate has one version for each line of its file, in the order of the file,
/// numbered from one; the crate lists these numbers.
pub proof fn law_versions_follow_the_file(
    queried_name: Seq<char>,
    entries: Seq<IndexEntryView>,
    now: Timestamp,
)
    requires
        entries.len() <= u64::MAX,
    ensures
        ({
            let response = response_of(queried_name, entries, now);
            &&& response.versions.len() == entries.len()
            &&& forall|i: int|
                0 <= i < entries.len() ==> {
                    let version = #[trigger] response.versions[i];
                    &&& version.id == i + 1
                    &&& version.num == entries[i].vers
                    &&& version.yanked == entries[i].yanked
                    &&& version.crate_name == response.crate_data.name
                }
            &&& response.crate_data.versions == Some(
                response.versions.map_values(|version: VersionView| version.id),
            )
        }),
{
    let response = response_of(queried_name, entries, now);
    assert(version_ids(entries.len()) =~= response.versions.map_values(
        |version: VersionView| version.id,
    ));
}

/// A crate goes by the name under which it was published, however the name was
/// written when it was asked for.
pub proof fn law_casing_of_the_question_is_not_kept(
    asked: Seq<char>,
    asked_otherwise: Seq<char>,
    entries: Seq<IndexEntryView>,
    now: Timestamp,
)
    requires
        entries.len() > 0,
    ensures
        response_of(asked, entries, now) == response_of(asked_otherwise, entries, now),
        response_of(asked, entries, now).crate_data.name == entries[0].name,
        response_of(asked, entries, now).crate_data.id == entries[0].name,
{
}

/// The file is a log: what is said of a version stays when more versions are
/// published, whenever it is asked for.
pub proof fn law_published_versions_stay(
    queried_name: Seq<char>,
    entries: Seq<IndexEntryView>,
    more: Seq<IndexEntryView>,
    now: Timestamp,
    later: Timestamp,
)
    requires
        entries.len() > 0,
    ensures
        response_of(queried_name, entries, now).versions.is_prefix_of(
            response_of(queried_name, entries + more, later).versions,
        ),
{
    let first = response_of(queried_name, entries, now).versions;
    let both = response_of(queried_name, entries + more, later).versions;
    assert(first =~= both.take(first.len() as int));
}

/// A version has the features of both maps of its line: a name of either, and
/// under a name of both the list of the one with that of the other behind it.
pub proof fn law_features_of_both_maps(
    queried_name: Seq<char>,
    entries: Seq<IndexEntryView>,
    now: Timestamp,
    i: int,
    name: Seq<char>,
)
    requires
        0 <= i < entries.len(),
    ensures
        ({
            let features = response_of(queried_name, entries, now).versions[i].features;
            let first = entries[i].features;
            let second = entries[i].features2;
            &&& features.contains_key(name) == (first.contains_key(name) || second.contains_key(
                name,
            ))
            &&& first.contains_key(name) && !second.contains_key(name) ==> features[name]
                == first[name]
            &&& second.contains_key(name) && !first.contains_key(name) ==> features[name]
                == second[name]
            &&& first.contains_key(name) && second.contains_key(name) ==> features[name]
                == first[name] + second[name]
        }),
{
}

// ── Dependencies ────────────────────────────────────────────────────────────

pub(crate) proof fn lemma_first_of_version(
    entries: Seq<IndexEntryView>,
    version: Seq<char>,
    last: int,
) -> (first: int)
    requires
        0 <= last < entries.len(),
        entries[last].vers == version,
    ensures
        first_of_version(entries, version, first),
        first <= last,
    decreases last,
{
    if exists|j: int| 0 <= j < last && (#[trigger] entries[j]).vers == version {
        let j = choose|j: int| 0 <= j < last && (#[trigger] entries[j]).vers == version;
        lemma_first_of_version(entries, version, j)
    } else {
        last
    }
}

/// The dependencies of a version are found just where the crate has the version.
pub proof fn law_dependencies_of_every_version(
    queried_name: Seq<char>,
    entries: Seq<IndexEntryView>,
    now: Timestamp,
    version: Seq<char>,
)
    ensures
        dependencies_of(version, entries) is Some == exists|i: int|
            0 <= i < entries.len() && (#[trigger] response_of(
                queried_name,
                entries,
                now,
            ).versions[i]).num == version,
{
    let versions = response_of(queried_name, entries, now).versions;
    if exists|i: int| 0 <= i < entries.len() && (#[trigger] versions[i]).num == version {
        let i = choose|i: int| 0 <= i < entries.len() && (#[trigger] versions[i]).num == version;
        let first = lemma_first_of_version(entries, version, i);
    }
    if exists|i: int| first_of_version(entries, version, i) {
        let i = choose|i: int| first_of_version(entries, version, i);
        assert(versions[i].num == version);
    }
}

/// The dependencies of a version are those of its line, one for one and in
/// order. Each goes by the name of the crate that it is on, not by the one that
/// it was renamed to, is a normal one unless its line says otherwise, and bears
/// no number.
pub proof fn law_dependencies_follow_the_line(
    entries: Seq<IndexEntryView>,
    version: Seq<char>,
    i: int,
)
    requires
        first_of_version(entries, version, i),
    ensures
        dependencies_of(version, entries) matches Some(dependencies) && {
            &&& dependencies.len() == entries[i].deps.len()
            &&& forall|k: int|
                0 <= k < dependencies.len() ==> {
                    let dep = entries[i].deps[k];
                    let dependency = #[trigger] dependencies[k];
                    &&& dep.package matches Some(package) ==> dependency.crate_id == package
                    &&& dep.package is None ==> dependency.crate_id == dep.name
                    &&& dep.kind matches Some(kind) ==> dependency.kind == kind
                    &&& dep.kind is None ==> dependency.kind == "normal"@
                    &&& dependency.req == dep.req
                    &&& dependency.features == dep.features
                    &&& dependency.optional == dep.optional
                    &&& dependency.default_features == dep.default_features
                    &&& dependency.target == dep.target
                    &&& dependency.id == 0 && dependency.version_id == 0
                    &&& dependency.downloads == 0
                }
        },
{
    let chosen = choose|j: int| first_of_version(entries, version, j);
    if chosen < i {
        assert(entries[chosen].vers != version);
    } else if i < chosen {
        assert(entries[i].vers != version);
    }
}

/// The dependencies of a version stay when more versions are published.
pub proof fn law_published_dependencies_stay(
    entries: Seq<IndexEntryView>,
    more: Seq<IndexEntryView>,
    version: Seq<char>,
)
    requires
        dependencies_of(version, entries) is Some,
    ensures
        dependencies_of(version, entries + more) == dependencies_of(version, entries),
{
    let all = entries + more;
    let i = choose|i: int| first_of_version(entries, version, i);
    assert(first_of_version(entries, version, i));
    assert forall|j: int| 0 <= j < i implies (#[trigger] all[j]).vers != version by {
        assert(all[j] == entries[j]);
    }
    assert(first_of_version(all, version, i));
    let chosen = choose|j: int| first_of_version(all, version, j);
    if chosen < i {
        assert(all[chosen].vers != version);
    } else if i < chosen {
        assert(all[i].vers != version);
    }
}

// ── Everything about a crate ────────────────────────────────────────────────

/// Everything about a crate with all its versions says of each version what is
/// said of it alone, and lists the dependencies that are found for it alone.
pub proof fn law_full_crate_agrees(
    queried_name: Seq<char>,
    entries: Seq<IndexEntryView>,
    now: Timestamp,
)
    ensures
        ({
            let response = response_of(queried_name, entries, now);
            let full = full_crate_of(response, entries, true);
            &&& full.name == response.crate_data.name
            &&& full.max_version == response.crate_data.max_version
            &&& full.max_stable_version == response.crate_data.max_stable_version
            &&& full.versions.len() == response.versions.len()
            &&& forall|i: int|
                0 <= i < full.versions.len() ==> {
                    let version = #[trigger] full.versions[i];
                    &&& version.id == response.versions[i].id
                    &&& version.num == response.versions[i].num
                    &&& version.yanked == response.versions[i].yanked
                    &&& version.features == response.versions[i].features
                    &&& Some(version.dependencies) == dependencies_of(version.num, entries)
                }
        }),
{
    let response = response_of(queried_name, entries, now);
    let full = full_crate_of(response, entries, true);
    assert forall|i: int| 0 <= i < full.versions.len() implies Some(
        (#[trigger] full.versions[i]).dependencies,
    ) == dependencies_of(full.versions[i].num, entries) by {
        assert(response.versions[i].num == entries[i].vers);
        law_dependencies_of_every_version(queried_name, entries, now, entries[i].vers);
    }
}

/// Everything about a crate with its latest version only is the same, but that
/// the last version alone is left of the list.
pub proof fn law_latest_version_alone(
    queried_name: Seq<char>,
    entries: Seq<IndexEntryView>,
    now: Timestamp,
)
    requires
        entries.len() > 0,
    ensures
        ({
            let response = response_of(queried_name, entries, now);
            let all = full_crate_of(response, entries, true);
            let latest = full_crate_of(response, entries, false);
            &&& latest.versions == seq![all.versions.last()]
            &&& latest.versions[0].num == entries.last().vers
            &&& latest == (FullCrateView { versions: latest.versions, ..all })
        }),
{
    let response = response_of(queried_name, entries, now);
    let all = full_crate_of(response, entries, true);
    let latest = full_crate_of(response, entries, false);
    assert(latest.versions =~= seq![all.versions.last()]);
}

// ── Reverse dependencies ────────────────────────────────────────────────────

proof fn lemma_version_numbered(versions: Seq<VersionView>, id: u64)
    ensures
        version_numbered(versions, id) matches Some(version) ==> version.id == id
            && versions.contains(version),
        version_numbered(versions, id) is None ==> forall|i: int|
            0 <= i < versions.len() ==> (#[trigger] versions[i]).id != id,
    decreases versions.len(),
{
    if versions.len() > 0 {
        lemma_version_numbered(versions.drop_last(), id);
        if versions.last().id == id {
            assert(versions.contains(versions.last()));
        } else {
            if let Some(version) = version_numbered(versions, id) {
                let k = choose|k: int|
                    0 <= k < versions.drop_last().len() && versions.drop_last()[k] == version;
                assert(versions[k] == version);
            } else {
                assert forall|i: int| 0 <= i < versions.len() implies (#[trigger] versions[i]).id
                    != id by {
                    if i < versions.len() - 1 {
                        assert(versions.drop_last()[i].id != id);
                    }
                }
            }
        }
    }
}

/// Every reverse dependency of a page is one of its dependencies together with
/// one of its versions, and the dependency belongs to that version.
pub proof fn law_pairs_belong_together(
    dependencies: Seq<DependencyView>,
    versions: Seq<VersionView>,
    k: int,
)
    requires
        0 <= k < paired(dependencies, versions).len(),
    ensures
        ({
            let pair = paired(dependencies, versions)[k];
            &&& pair.dependency.version_id == pair.crate_version.id
            &&& dependencies.contains(pair.dependency)
            &&& versions.contains(pair.crate_version)
        }),
    decreases dependencies.len(),
{
    let fewer = dependencies.drop_last();
    let before = paired(fewer, versions);
    lemma_version_numbered(versions, dependencies.last().version_id);
    if k < before.len() {
        law_pairs_belong_together(fewer, versions, k);
        let pair = before[k];
        let i = choose|i: int| 0 <= i < fewer.len() && fewer[i] == pair.dependency;
        assert(dependencies[i] == pair.dependency);
    } else {
        assert(dependencies.contains(dependencies.last()));
    }
}

/// No dependency of a page whose version is on the page is lost: where that
/// holds of all of them, there are as many pairs, in the order of the
/// dependencies.
pub proof fn law_no_dependency_is_lost(
    dependencies: Seq<DependencyView>,
    versions: Seq<VersionView>,
)
    requires
        forall|i: int|
            0 <= i < dependencies.len() ==> exists|j: int|
                0 <= j < versions.len() && (#[trigger] versions[j]).id == (
                #[trigger] dependencies[i]).version_id,
    ensures
        paired(dependencies, versions).map_values(
            |pair: ReverseDependencyView| pair.dependency,
        ) == dependencies,
    decreases dependencies.len(),
{
    let dependency = |pair: ReverseDependencyView| pair.dependency;
    if dependencies.len() > 0 {
        let fewer = dependencies.drop_last();
        assert forall|i: int| 0 <= i < fewer.len() implies exists|j: int|
            0 <= j < versions.len() && (#[trigger] versions[j]).id == (
            #[trigger] fewer[i]).version_id by {
            assert(fewer[i] == dependencies[i]);
        }
        law_no_dependency_is_lost(fewer, versions);
        lemma_version_numbered(versions, dependencies[dependencies.len() - 1].version_id);
        assert(paired(dependencies, versions).map_values(dependency) =~= paired(
            fewer,
            versions,
        ).map_values(dependency).push(dependencies.last()));
        assert(dependencies =~= fewer.push(dependencies.last()));
    } else {
        assert(paired(dependencies, versions).map_values(dependency) =~= dependencies);
    }
}

} // verus!
