//! What the answers hold, field by field: each law takes an answer together
//! with the lines that it was made from and says what stands in it.
use vstd::prelude::*;
use vstd::std_specs::hash::DefaultHasherAdditionalSpecFns;
use std::collections::hash_map::DefaultHasher;

use crate::async_client::missing_version_text;
use crate::convert::{char_writes, id_of, max_version_of, text_writes};
use crate::entry::{IndexDep, IndexEntry, IndexEntryView};
use crate::error::Error;
use crate::index::path_of;
use crate::laws::lemma_highest;
use crate::lookup::{
    crate_found, dependencies_found, full_crate_found, full_crate_of, normal_file_url,
    request_made, views_of, IndexRequest,
};
use crate::precedence::{takes_part, Admission};
use crate::response::{
    all_yanked, candidates_of, crate_of, crate_path, dependencies_of, dependency_of, display_name,
    first_of_version, highest_version_of, no_downloads, no_reverse_dependencies, or_empty,
    response_of, says_not_supported, version_of,
};
use crate::semantic::{before, place_of, released, semver_of};
use crate::text::lowercased;
use crate::time::{unix_epoch, Timestamp};
use crate::types::{
    paired, version_numbered, Crate, CrateDownloads, CrateResponse, Dependency, DependencyView,
    FullCrate, ReverseDependencies, ReverseDependenciesAsReceived, ReverseDependenciesView,
    ReverseDependencyView, User, Version, VersionView,
};

verus! {

// ── The highest version ─────────────────────────────────────────────────────

/// The place of an entry's version in the order of versions.
pub open spec fn place(entry: IndexEntry) -> Seq<int> {
    place_of(semver_of(entry.vers@)->0)
}

/// The entry has a semantic version and is not yanked.
pub open spec fn current(entries: Seq<IndexEntry>, i: int) -> bool {
    0 <= i < entries.len() && semver_of(entries[i].vers@) is Some && !entries[i].yanked
}

/// The entry has a semantic version without a pre-release and is not yanked.
pub open spec fn current_stable(entries: Seq<IndexEntry>, i: int) -> bool {
    current(entries, i) && released(semver_of(entries[i].vers@)->0)
}

/// The entry has a semantic version and is not yanked, or no entry is unyanked.
pub open spec fn considered(entries: Seq<IndexEntry>, i: int) -> bool {
    &&& 0 <= i < entries.len()
    &&& semver_of(entries[i].vers@) is Some
    &&& !entries[i].yanked || forall|k: int|
        0 <= k < entries.len() ==> (#[trigger] entries[k]).yanked
}

/// The entry is considered and has no pre-release.
pub open spec fn considered_stable(entries: Seq<IndexEntry>, i: int) -> bool {
    considered(entries, i) && released(semver_of(entries[i].vers@)->0)
}

/// The entry has a semantic version, may be yanked only if `yanked` is set, and
/// a pre-release only if `prereleases` is.
pub open spec fn let_in(
    entries: Seq<IndexEntry>,
    yanked: bool,
    prereleases: bool,
    i: int,
) -> bool {
    &&& 0 <= i < entries.len()
    &&& semver_of(entries[i].vers@) matches Some(version) && (prereleases || released(version))
    &&& yanked || !entries[i].yanked
}

/// The highest version of those let in is the text of one of them, and none of
/// them is higher; there is none only if none is let in.
pub proof fn law_highest_version(
    text: Option<String>,
    entries: Seq<IndexEntry>,
    admission: Admission,
)
    requires
        text.deep_view() == highest_version_of(views_of(entries), admission),
    ensures
        text is Some == exists|i: int|
            let_in(entries, admission.yanked, admission.prereleases, i),
        text matches Some(found) ==> exists|i: int| #[trigger]
            let_in(entries, admission.yanked, admission.prereleases, i) && found@
                == entries[i].vers@ && forall|j: int| #[trigger]
                let_in(entries, admission.yanked, admission.prereleases, j) ==> !before(
                    place(entries[i]),
                    place(entries[j]),
                ),
{
    lemma_highest_text(entries, admission);
}

proof fn lemma_highest_text(entries: Seq<IndexEntry>, admission: Admission)
    ensures
        match highest_version_of(views_of(entries), admission) {
            Some(text) => exists|i: int| #[trigger]
                let_in(entries, admission.yanked, admission.prereleases, i) && text
                    == entries[i].vers@ && forall|j: int| #[trigger]
                    let_in(entries, admission.yanked, admission.prereleases, j) ==> !before(
                        place(entries[i]),
                        place(entries[j]),
                    ),
            None => forall|j: int|
                !#[trigger] let_in(entries, admission.yanked, admission.prereleases, j),
        },
{
    let views = views_of(entries);
    let candidates = candidates_of(views);
    lemma_highest(views, admission);
    assert forall|j: int| 0 <= j < entries.len() implies #[trigger] let_in(
        entries,
        admission.yanked,
        admission.prereleases,
        j,
    ) == takes_part(candidates[j], admission) by {}
    match highest_version_of(views, admission) {
        Some(text) => {
            let i = choose|i: int|
                #![trigger views[i]]
                0 <= i < views.len() && takes_part(candidates[i], admission) && text
                    == views[i].vers && forall|j: int|
                    0 <= j < views.len() && takes_part(#[trigger] candidates[j], admission)
                        ==> !before(
                        crate::laws::place_in_order(views[i]),
                        crate::laws::place_in_order(views[j]),
                    );
            assert(let_in(entries, admission.yanked, admission.prereleases, i));
            assert forall|j: int| #[trigger]
                let_in(entries, admission.yanked, admission.prereleases, j) implies !before(
                place(entries[i]),
                place(entries[j]),
            ) by {
                assert(takes_part(candidates[j], admission));
            }
        },
        None => {
            assert forall|j: int|
                !#[trigger] let_in(entries, admission.yanked, admission.prereleases, j) by {
                if 0 <= j < entries.len() {
                    assert(!takes_part(candidates[j], admission));
                }
            }
        },
    }
}

proof fn lemma_all_yanked(entries: Seq<IndexEntry>)
    ensures
        all_yanked(views_of(entries)) == (forall|k: int|
            0 <= k < entries.len() ==> (#[trigger] entries[k]).yanked),
{
    let views = views_of(entries);
    if all_yanked(views) {
        assert forall|k: int| 0 <= k < entries.len() implies (#[trigger] entries[k]).yanked by {
            assert(views[k].yanked);
        }
    }
}

/// What is let in when yanked entries count only if all are yanked.
proof fn lemma_considered(entries: Seq<IndexEntry>)
    ensures
        forall|i: int|
            #![trigger considered(entries, i)]
            #![trigger let_in(entries, all_yanked(views_of(entries)), true, i)]
            considered(entries, i) == let_in(entries, all_yanked(views_of(entries)), true, i),
        forall|i: int|
            #![trigger considered_stable(entries, i)]
            #![trigger let_in(entries, all_yanked(views_of(entries)), false, i)]
            considered_stable(entries, i) == let_in(
                entries,
                all_yanked(views_of(entries)),
                false,
                i,
            ),
        forall|i: int|
            #![trigger current_stable(entries, i)]
            #![trigger let_in(entries, false, false, i)]
            current_stable(entries, i) == let_in(entries, false, false, i),
{
    lemma_all_yanked(entries);
}

proof fn lemma_max_versions(entries: Seq<IndexEntry>)
    ensures
        ({
            let max_version = or_empty(
                highest_version_of(
                    views_of(entries),
                    Admission { yanked: all_yanked(views_of(entries)), prereleases: true },
                ),
            );
            let max_stable_version = highest_version_of(
                views_of(entries),
                Admission { yanked: all_yanked(views_of(entries)), prereleases: false },
            );
            &&& (exists|i: int| considered(entries, i)) ==> exists|i: int| #[trigger]
                considered(entries, i) && max_version == entries[i].vers@ && forall|j: int| #[trigger]
                    considered(entries, j) ==> !before(place(entries[i]), place(entries[j]))
            &&& !(exists|i: int| considered(entries, i)) ==> max_version == Seq::<char>::empty()
            &&& max_stable_version is Some == exists|i: int| considered_stable(entries, i)
            &&& max_stable_version matches Some(text) ==> exists|i: int| #[trigger]
                considered_stable(entries, i) && text == entries[i].vers@ && forall|j: int|
                    #[trigger]
                    considered_stable(entries, j) ==> !before(place(entries[i]), place(entries[j]))
        }),
{
    let yanked = all_yanked(views_of(entries));
    lemma_considered(entries);
    lemma_highest_text(entries, Admission { yanked, prereleases: true });
    lemma_highest_text(entries, Admission { yanked, prereleases: false });
    match highest_version_of(views_of(entries), Admission { yanked, prereleases: true }) {
        Some(text) => {
            let i = choose|i: int| #[trigger]
                let_in(entries, yanked, true, i) && text == entries[i].vers@ && forall|j: int|
                    #[trigger]
                    let_in(entries, yanked, true, j) ==> !before(
                        place(entries[i]),
                        place(entries[j]),
                    );
            assert(considered(entries, i));
        },
        None => {
            assert forall|i: int| !#[trigger] considered(entries, i) by {
                let admission = Admission { yanked: yanked, prereleases: true };
                assert(!let_in(entries, admission.yanked, admission.prereleases, i));
            }
        },
    }
    match highest_version_of(views_of(entries), Admission { yanked, prereleases: false }) {
        Some(text) => {
            let i = choose|i: int| #[trigger]
                let_in(entries, yanked, false, i) && text == entries[i].vers@ && forall|j: int|
                    #[trigger]
                    let_in(entries, yanked, false, j) ==> !before(
                        place(entries[i]),
                        place(entries[j]),
                    );
            assert(considered_stable(entries, i));
        },
        None => {
            assert forall|i: int| !#[trigger] considered_stable(entries, i) by {
                let admission = Admission { yanked: yanked, prereleases: false };
                assert(!let_in(entries, admission.yanked, admission.prereleases, i));
            }
        },
    }
}

/// The highest version of the entries is the text of one that is not yanked,
/// or of any if all are yanked, and none of these is higher; it is empty only
/// where none of these has a semantic version.
pub proof fn law_found_max_version(version: String, entries: Seq<IndexEntry>)
    requires
        version@ == or_empty(max_version_of(views_of(entries))),
    ensures
        (exists|i: int| considered(entries, i)) ==> exists|i: int| #[trigger]
                considered(entries, i) && version@ == entries[i].vers@ && forall|j: int| #[trigger]
                    considered(entries, j) ==> !before(place(entries[i]), place(entries[j])),
        !(exists|i: int| considered(entries, i)) ==> version@ == Seq::<char>::empty(),
{
    lemma_max_versions(entries);
}

/// The highest stable version of the entries is the text of one that is neither
/// yanked nor a pre-release, and none of these is higher; it is absent only
/// where there is none.
pub proof fn law_found_max_stable_version(version: Option<String>, entries: Seq<IndexEntry>)
    requires
        version.deep_view() == highest_version_of(
            views_of(entries),
            Admission { yanked: false, prereleases: false },
        ),
    ensures
        version is Some == exists|i: int| current_stable(entries, i),
        version matches Some(text) ==> exists|i: int| #[trigger]
                current_stable(entries, i) && text@ == entries[i].vers@ && forall|j: int| #[trigger]
                    current_stable(entries, j) ==> !before(place(entries[i]), place(entries[j])),
{
    lemma_considered(entries);
    lemma_highest_text(entries, Admission { yanked: false, prereleases: false });
    match version {
        Some(text) => {
            let i = choose|i: int| #[trigger]
                let_in(entries, false, false, i) && text@ == entries[i].vers@ && forall|j: int|
                    #[trigger]
                    let_in(entries, false, false, j) ==> !before(
                        place(entries[i]),
                        place(entries[j]),
                    );
            assert(current_stable(entries, i));
        },
        None => {
            assert forall|i: int| !#[trigger] current_stable(entries, i) by {
                let admission = Admission { yanked: false, prereleases: false };
                assert(!let_in(entries, admission.yanked, admission.prereleases, i));
            }
        },
    }
}

// ── A crate and its versions ────────────────────────────────────────────────

/// What the answer says of the crate: its name is that of the first line, its
/// links are made of that name, its versions are numbered from one, its highest
/// versions are those of its lines, it bears the time that is given, and what
/// the index does not hold is absent.
pub proof fn law_response(
    response: CrateResponse,
    queried_name: Seq<char>,
    entries: Seq<IndexEntry>,
    now: Timestamp,
    name: Seq<char>,
)
    requires
        response.deep_view() == response_of(queried_name, views_of(entries), now),
        entries.len() <= u64::MAX,
        name == (if entries.len() == 0 {
            queried_name
        } else {
            entries[0].name@
        }),
    ensures
        response.categories@.len() == 0,
        response.keywords@.len() == 0,
        response.versions@.len() == entries.len(),
        response.crate_data.id@ == name,
        response.crate_data.name@ == name,
        response.crate_data.description is None,
        response.crate_data.license is None,
        response.crate_data.documentation is None,
        response.crate_data.homepage is None,
        response.crate_data.repository is None,
        response.crate_data.recent_downloads is None,
        response.crate_data.downloads == 0,
        response.crate_data.categories matches Some(list) && list@.len() == 0,
        response.crate_data.keywords matches Some(list) && list@.len() == 0,
        response.crate_data.versions matches Some(list) && list@.len() == entries.len() && forall|i: int|
                0 <= i < entries.len() ==> #[trigger] list@[i] == i + 1,
        response.crate_data.links.owner_team@ == "/api/v1/crates/"@ + name + "/owner_team"@,
        response.crate_data.links.owner_user@ == "/api/v1/crates/"@ + name + "/owner_user"@,
        response.crate_data.links.owners@ == "/api/v1/crates/"@ + name + "/owners"@,
        response.crate_data.links.reverse_dependencies@ == "/api/v1/crates/"@ + name + "/reverse_dependencies"@,
        response.crate_data.links.version_downloads@ == "/api/v1/crates/"@ + name + "/downloads"@,
        response.crate_data.links.versions is None,
        response.crate_data.created_at == now,
        response.crate_data.updated_at == now,
        response.crate_data.exact_match == Some(true),
        (exists|i: int| considered(entries, i)) ==> exists|i: int| #[trigger]
                considered(entries, i) && response.crate_data.max_version@ == entries[i].vers@ && forall|j: int| #[trigger]
                    considered(entries, j) ==> !before(place(entries[i]), place(entries[j])),
        !(exists|i: int| considered(entries, i)) ==> response.crate_data.max_version@ == Seq::<char>::empty(),
        response.crate_data.max_stable_version is Some == exists|i: int| considered_stable(entries, i),
        response.crate_data.max_stable_version matches Some(text) ==> exists|i: int| #[trigger]
                considered_stable(entries, i) && text@ == entries[i].vers@ && forall|j: int| #[trigger]
                    considered_stable(entries, j) ==> !before(place(entries[i]), place(entries[j])),
{
    let data = response.crate_data;
    let view = response.deep_view();
    let views = views_of(entries);
    lemma_max_versions(entries);
    assert(view.versions.len() == views.len());
    assert(view.crate_data == data.deep_view());
    assert(data.categories.deep_view() == Some(Seq::<Seq<char>>::empty()));
    assert(data.keywords.deep_view() == Some(Seq::<Seq<char>>::empty()));
    assert(data.categories->0.deep_view().len() == data.categories->0@.len());
    assert(data.keywords->0.deep_view().len() == data.keywords->0@.len());
    let ids = data.versions->0;
    assert(ids.deep_view() == view.crate_data.versions->0);
    assert forall|i: int| 0 <= i < entries.len() implies #[trigger] ids@[i] == i + 1 by {
        assert(ids.deep_view()[i] == ids@[i]);
    }
}

/// What the answer says of a version: what its line says, with the path of the
/// crate's file and the links made of the crate's name and the version's text;
/// it has the features of both maps, and its number is its place in the file,
/// counted from one.
pub proof fn law_response_version(
    response: CrateResponse,
    queried_name: Seq<char>,
    entries: Seq<IndexEntry>,
    now: Timestamp,
    i: int,
)
    requires
        response.deep_view() == response_of(queried_name, views_of(entries), now),
        entries.len() <= u64::MAX,
        0 <= i < entries.len(),
    ensures
        response.versions@.len() == entries.len(),
        response.versions@[i].crate_name@ == entries[0].name@,
        response.versions@[i].created_at.secs == 0 && response.versions@[i].created_at.nanos == 0,
        response.versions@[i].updated_at.secs == 0 && response.versions@[i].updated_at.nanos == 0,
        response.versions@[i].dl_path@ == "/api/v1/crates/"@ + entries[0].name@ + "/"@ + entries[i].vers@ + "/download"@,
        response.versions@[i].downloads == 0,
        forall|key: Seq<char>|
                #[trigger] response.versions@[i].features@.contains_key(key) == (entries[i].features@.contains_key(key)
                    || entries[i].features2@.contains_key(key)),
        forall|key: Seq<char>| #[trigger]
                response.versions@[i].features@.contains_key(key) ==> response.versions@[i].features@[key] == (if !entries[i].features2@.contains_key(key) {
                    entries[i].features@[key]
                } else if !entries[i].features@.contains_key(key) {
                    entries[i].features2@[key]
                } else {
                    entries[i].features@[key] + entries[i].features2@[key]
                }),
        response.versions@[i].id == i + 1,
        response.versions@[i].num@ == entries[i].vers@,
        response.versions@[i].yanked == entries[i].yanked,
        response.versions@[i].license is None,
        response.versions@[i].readme_path is None,
        response.versions@[i].links.authors@ == Seq::<char>::empty(),
        response.versions@[i].links.dependencies@ == "/api/v1/crates/"@ + entries[0].name@ + "/"@ + entries[i].vers@ + "/dependencies"@,
        response.versions@[i].links.version_downloads@ == "/api/v1/crates/"@ + entries[0].name@ + "/"@ + entries[i].vers@ + "/downloads"@,
        response.versions@[i].crate_size is None,
        response.versions@[i].published_by is None,
{
    let view = response.deep_view();
    assert(view.versions.len() == entries.len());
    assert(view.versions[i] == response.versions@[i].deep_view());
    assert(views_of(entries)[i] == entries[i].deep_view());
    assert(views_of(entries)[0] == entries[0].deep_view());
    lemma_version_fields(response.versions@[i], entries[0].name@, entries[i], (i + 1) as u64);
}

proof fn lemma_version_fields(version: Version, name: Seq<char>, entry: IndexEntry, id: u64)
    requires
        version.deep_view() == version_of(name, entry.deep_view(), id),
    ensures
        version.crate_name@ == name,
        version.created_at.secs == 0 && version.created_at.nanos == 0,
        version.updated_at.secs == 0 && version.updated_at.nanos == 0,
        version.dl_path@ == "/api/v1/crates/"@ + name + "/"@ + entry.vers@ + "/download"@,
        version.downloads == 0,
        forall|key: Seq<char>|
                #[trigger] version.features@.contains_key(key) == (entry.features@.contains_key(key)
                    || entry.features2@.contains_key(key)),
        forall|key: Seq<char>| #[trigger]
                version.features@.contains_key(key) ==> version.features@[key] == (if !entry.features2@.contains_key(key) {
                    entry.features@[key]
                } else if !entry.features@.contains_key(key) {
                    entry.features2@[key]
                } else {
                    entry.features@[key] + entry.features2@[key]
                }),
        version.id == id,
        version.num@ == entry.vers@,
        version.yanked == entry.yanked,
        version.license is None,
        version.readme_path is None,
        version.links.authors@ == Seq::<char>::empty(),
        version.links.dependencies@ == "/api/v1/crates/"@ + name + "/"@ + entry.vers@ + "/dependencies"@,
        version.links.version_downloads@ == "/api/v1/crates/"@ + name + "/"@ + entry.vers@ + "/downloads"@,
        version.crate_size is None,
        version.published_by is None,
{
}

/// Looking up a crate finds it just where its file has a line; otherwise it is
/// not found at the URL of the file. What is found has one version for each line.
pub proof fn law_found_crate(
    found: Result<CrateResponse, Error>,
    crate_name: Seq<char>,
    entries: Seq<IndexEntry>,
    now: Timestamp,
)
    requires
        crate_found(found, crate_name, views_of(entries), now),
        entries.len() <= u64::MAX,
    ensures
        found is Ok == (entries.len() > 0),
        found is Err ==> (found matches Err(Error::NotFound(error)) && error.url@
            == "https://index.crates.io/"@ + path_of(lowercased(crate_name))),
        found matches Ok(response) ==> {
            let name = entries[0].name@;
            &&& response.categories@.len() == 0
            &&& response.keywords@.len() == 0
            &&& response.versions@.len() == entries.len()
            &&& response.crate_data.id@ == name
            &&& response.crate_data.name@ == name
            &&& response.crate_data.description is None
            &&& response.crate_data.license is None
            &&& response.crate_data.documentation is None
            &&& response.crate_data.homepage is None
            &&& response.crate_data.repository is None
            &&& response.crate_data.recent_downloads is None
            &&& response.crate_data.downloads == 0
            &&& response.crate_data.categories matches Some(list) && list@.len() == 0
            &&& response.crate_data.keywords matches Some(list) && list@.len() == 0
            &&& response.crate_data.versions matches Some(list) && list@.len() == entries.len() && forall|i: int|
                0 <= i < entries.len() ==> #[trigger] list@[i] == i + 1
            &&& response.crate_data.links.owner_team@ == "/api/v1/crates/"@ + name + "/owner_team"@
            &&& response.crate_data.links.owner_user@ == "/api/v1/crates/"@ + name + "/owner_user"@
            &&& response.crate_data.links.owners@ == "/api/v1/crates/"@ + name + "/owners"@
            &&& response.crate_data.links.reverse_dependencies@ == "/api/v1/crates/"@ + name + "/reverse_dependencies"@
            &&& response.crate_data.links.version_downloads@ == "/api/v1/crates/"@ + name + "/downloads"@
            &&& response.crate_data.links.versions is None
            &&& response.crate_data.created_at == now
            &&& response.crate_data.updated_at == now
            &&& response.crate_data.exact_match == Some(true)
            &&& (exists|i: int| considered(entries, i)) ==> exists|i: int| #[trigger]
                considered(entries, i) && response.crate_data.max_version@ == entries[i].vers@ && forall|j: int| #[trigger]
                    considered(entries, j) ==> !before(place(entries[i]), place(entries[j]))
            &&& !(exists|i: int| considered(entries, i)) ==> response.crate_data.max_version@ == Seq::<char>::empty()
            &&& response.crate_data.max_stable_version is Some == exists|i: int| considered_stable(entries, i)
            &&& response.crate_data.max_stable_version matches Some(text) ==> exists|i: int| #[trigger]
                considered_stable(entries, i) && text@ == entries[i].vers@ && forall|j: int| #[trigger]
                    considered_stable(entries, j) ==> !before(place(entries[i]), place(entries[j]))
        },
{
    if let Ok(response) = found {
        law_response(response, crate_name, entries, now, entries[0].name@);
    }
}

/// What is found of a version is what its line says.
pub proof fn law_found_version(
    found: Result<CrateResponse, Error>,
    crate_name: Seq<char>,
    entries: Seq<IndexEntry>,
    now: Timestamp,
    i: int,
)
    requires
        crate_found(found, crate_name, views_of(entries), now),
        entries.len() <= u64::MAX,
        0 <= i < entries.len(),
    ensures
        found matches Ok(response) && {
            let version = response.versions@[i];
            &&& response.versions@.len() == entries.len()
            &&& version.crate_name@ == entries[0].name@
            &&& version.created_at.secs == 0 && version.created_at.nanos == 0
            &&& version.updated_at.secs == 0 && version.updated_at.nanos == 0
            &&& version.dl_path@ == "/api/v1/crates/"@ + entries[0].name@ + "/"@ + entries[i].vers@ + "/download"@
            &&& version.downloads == 0
            &&& forall|key: Seq<char>|
                #[trigger] version.features@.contains_key(key) == (entries[i].features@.contains_key(key)
                    || entries[i].features2@.contains_key(key))
            &&& forall|key: Seq<char>| #[trigger]
                version.features@.contains_key(key) ==> version.features@[key] == (if !entries[i].features2@.contains_key(key) {
                    entries[i].features@[key]
                } else if !entries[i].features@.contains_key(key) {
                    entries[i].features2@[key]
                } else {
                    entries[i].features@[key] + entries[i].features2@[key]
                })
            &&& version.id == i + 1
            &&& version.num@ == entries[i].vers@
            &&& version.yanked == entries[i].yanked
            &&& version.license is None
            &&& version.readme_path is None
            &&& version.links.authors@ == Seq::<char>::empty()
            &&& version.links.dependencies@ == "/api/v1/crates/"@ + entries[0].name@ + "/"@ + entries[i].vers@ + "/dependencies"@
            &&& version.links.version_downloads@ == "/api/v1/crates/"@ + entries[0].name@ + "/"@ + entries[i].vers@ + "/downloads"@
            &&& version.crate_size is None
            &&& version.published_by is None
        },
{
    law_response_version(found->Ok_0, crate_name, entries, now, i);
}

// ── Dependencies ────────────────────────────────────────────────────────────

proof fn lemma_dependencies(version: Seq<char>, entries: Seq<IndexEntry>)
    ensures
        dependencies_of(version, views_of(entries)) is Some == exists|i: int|
            0 <= i < entries.len() && (#[trigger] entries[i]).vers@ == version,
        forall|i: int|
            0 <= i < entries.len() && (#[trigger] entries[i]).vers@ == version && (forall|j: int|
                0 <= j < i ==> (#[trigger] entries[j]).vers@ != version) ==> first_of_version(
                views_of(entries),
                version,
                i,
            ),
{
    let views = views_of(entries);
    if exists|i: int| 0 <= i < entries.len() && (#[trigger] entries[i]).vers@ == version {
        let i = choose|i: int| 0 <= i < entries.len() && (#[trigger] entries[i]).vers@ == version;
        assert(views[i].vers == version);
        let first = crate::laws::lemma_first_of_version(views, version, i);
    }
    if exists|i: int| first_of_version(views, version, i) {
        let i = choose|i: int| first_of_version(views, version, i);
        assert(entries[i].vers@ == version);
    }
    assert forall|i: int|
        0 <= i < entries.len() && (#[trigger] entries[i]).vers@ == version && (forall|j: int|
            0 <= j < i ==> (#[trigger] entries[j]).vers@ != version) implies first_of_version(
        views,
        version,
        i,
    ) by {
        assert forall|j: int| 0 <= j < i implies (#[trigger] views[j]).vers != version by {
            assert(entries[j].vers@ != version);
        }
    }
}

/// The dependencies of a version are found just where a line of the file has
/// the version, whatever dependencies it has; otherwise the version is not found
/// at the place that is given.
pub proof fn law_found_dependencies(
    found: Result<Vec<Dependency>, Error>,
    place: Seq<char>,
    version: Seq<char>,
    entries: Seq<IndexEntry>,
)
    requires
        dependencies_found(found, place, version, views_of(entries)),
    ensures
        found is Ok == exists|i: int|
            0 <= i < entries.len() && (#[trigger] entries[i]).vers@ == version,
        found is Err ==> (found matches Err(Error::NotFound(error)) && error.url@ == place),
{
    lemma_dependencies(version, entries);
}

/// The dependencies that are found are those of the first line of the version,
/// one for one and in order. Each goes by the name of the package that it is on,
/// is a normal one unless its line says otherwise, and bears no number.
pub proof fn law_found_dependencies_of_line(
    found: Result<Vec<Dependency>, Error>,
    place: Seq<char>,
    version: Seq<char>,
    entries: Seq<IndexEntry>,
    i: int,
)
    requires
        dependencies_found(found, place, version, views_of(entries)),
        0 <= i < entries.len(),
        entries[i].vers@ == version,
        forall|j: int| 0 <= j < i ==> (#[trigger] entries[j]).vers@ != version,
    ensures
        found matches Ok(list) && list@.len() == entries[i].deps@.len() && forall|k: int|
            0 <= k < list@.len() ==> {
                let dependency = #[trigger] list@[k];
                let dep = entries[i].deps@[k];
                &&& dep.package matches Some(package) ==> dependency.crate_id@ == package@
                &&& dep.package is None ==> dependency.crate_id@ == dep.name@
                &&& dependency.req@ == dep.req@
                &&& dependency.features.deep_view() == dep.features.deep_view()
                &&& dependency.optional == dep.optional
                &&& dependency.default_features == dep.default_features
                &&& dependency.target.deep_view() == dep.target.deep_view()
                &&& dep.kind matches Some(kind) ==> dependency.kind@ == kind@
                &&& dep.kind is None ==> dependency.kind@ == "normal"@
                &&& dependency.downloads == 0
                &&& dependency.id == 0
                &&& dependency.version_id == 0
            },
{
    lemma_listed_dependencies(found->Ok_0, version, entries, i);
}

proof fn lemma_listed_dependencies(
    list: Vec<Dependency>,
    version: Seq<char>,
    entries: Seq<IndexEntry>,
    i: int,
)
    requires
        dependencies_of(version, views_of(entries)) is Some ==> list.deep_view()
            == dependencies_of(version, views_of(entries))->0,
        0 <= i < entries.len(),
        entries[i].vers@ == version,
        forall|j: int| 0 <= j < i ==> (#[trigger] entries[j]).vers@ != version,
    ensures
        dependencies_of(version, views_of(entries)) is Some,
        list@.len() == entries[i].deps@.len(),
        forall|k: int|
            0 <= k < list@.len() ==> {
                let dependency = #[trigger] list@[k];
                let dep = entries[i].deps@[k];
                &&& dep.package matches Some(package) ==> dependency.crate_id@ == package@
                &&& dep.package is None ==> dependency.crate_id@ == dep.name@
                &&& dependency.req@ == dep.req@
                &&& dependency.features.deep_view() == dep.features.deep_view()
                &&& dependency.optional == dep.optional
                &&& dependency.default_features == dep.default_features
                &&& dependency.target.deep_view() == dep.target.deep_view()
                &&& dep.kind matches Some(kind) ==> dependency.kind@ == kind@
                &&& dep.kind is None ==> dependency.kind@ == "normal"@
                &&& dependency.downloads == 0
                &&& dependency.id == 0
                &&& dependency.version_id == 0
            },
{
    let views = views_of(entries);
    lemma_dependencies(version, entries);
    assert(first_of_version(views, version, i));
    let chosen = choose|j: int| first_of_version(views, version, j);
    if chosen < i {
        assert(views[chosen].vers != version);
    } else if i < chosen {
        assert(views[i].vers != version);
    }
    let expected = dependencies_of(version, views)->0;
    assert(views[i].deps == entries[i].deps.deep_view());
    assert(list.deep_view() == expected);
    assert(expected.len() == entries[i].deps@.len());
    assert forall|k: int| 0 <= k < list@.len() implies {
        let dependency = #[trigger] list@[k];
        let dep = entries[i].deps@[k];
        &&& dep.package matches Some(package) ==> dependency.crate_id@ == package@
        &&& dep.package is None ==> dependency.crate_id@ == dep.name@
        &&& dependency.req@ == dep.req@
        &&& dependency.features.deep_view() == dep.features.deep_view()
        &&& dependency.optional == dep.optional
        &&& dependency.default_features == dep.default_features
        &&& dependency.target.deep_view() == dep.target.deep_view()
        &&& dep.kind matches Some(kind) ==> dependency.kind@ == kind@
        &&& dep.kind is None ==> dependency.kind@ == "normal"@
        &&& dependency.downloads == 0
        &&& dependency.id == 0
        &&& dependency.version_id == 0
    } by {
        assert(list.deep_view()[k] == list@[k].deep_view());
        assert(entries[i].deps.deep_view()[k] == entries[i].deps@[k].deep_view());
        lemma_dependency_fields(list@[k], entries[i].deps@[k], 0, 0);
    }
}

proof fn lemma_dependency_fields(dependency: Dependency, dep: IndexDep, id: u64, version_id: u64)
    requires
        dependency.deep_view() == dependency_of(dep.deep_view(), id, version_id),
    ensures
        dep.package matches Some(package) ==> dependency.crate_id@ == package@,
        dep.package is None ==> dependency.crate_id@ == dep.name@,
        dependency.req@ == dep.req@,
        dependency.features.deep_view() == dep.features.deep_view(),
        dependency.optional == dep.optional,
        dependency.default_features == dep.default_features,
        dependency.target.deep_view() == dep.target.deep_view(),
        dep.kind matches Some(kind) ==> dependency.kind@ == kind@,
        dep.kind is None ==> dependency.kind@ == "normal"@,
        dependency.downloads == 0,
        dependency.id == id,
        dependency.version_id == version_id,
{
    let view = dependency.deep_view();
    if let Some(package) = dep.package {
        assert(dep.deep_view().package == Some(package@));
    }
    if let Some(kind) = dep.kind {
        assert(dep.deep_view().kind == Some(kind@));
    }
}

/// Where the dependencies of a version are listed, the version is in the file,
/// and what is listed is what its first line says.
pub proof fn law_listed_dependencies(
    listed: Option<Vec<Dependency>>,
    version: Seq<char>,
    entries: Seq<IndexEntry>,
    i: int,
)
    requires
        listed.deep_view() == dependencies_of(version, views_of(entries)),
    ensures
        listed is Some == exists|i: int|
            0 <= i < entries.len() && (#[trigger] entries[i]).vers@ == version,
        0 <= i < entries.len() && entries[i].vers@ == version && (forall|j: int|
            0 <= j < i ==> (#[trigger] entries[j]).vers@ != version) ==> (listed matches Some(list)
            && list@.len() == entries[i].deps@.len() && forall|k: int|
            0 <= k < list@.len() ==> {
                let dependency = #[trigger] list@[k];
                let dep = entries[i].deps@[k];
                &&& dep.package matches Some(package) ==> dependency.crate_id@ == package@
                &&& dep.package is None ==> dependency.crate_id@ == dep.name@
                &&& dependency.req@ == dep.req@
                &&& dependency.features.deep_view() == dep.features.deep_view()
                &&& dependency.optional == dep.optional
                &&& dependency.default_features == dep.default_features
                &&& dependency.target.deep_view() == dep.target.deep_view()
                &&& dep.kind matches Some(kind) ==> dependency.kind@ == kind@
                &&& dep.kind is None ==> dependency.kind@ == "normal"@
                &&& dependency.downloads == 0
                &&& dependency.id == 0
                &&& dependency.version_id == 0
            }),
{
    lemma_dependencies(version, entries);
    if 0 <= i < entries.len() && entries[i].vers@ == version && (forall|j: int|
        0 <= j < i ==> (#[trigger] entries[j]).vers@ != version) {
        assert(listed is Some);
        assert(listed.deep_view() == Some(listed->0.deep_view()));
        lemma_listed_dependencies(listed->0, version, entries, i);
    }
}

// ── Everything about a crate ────────────────────────────────────────────────

/// Everything about a crate is what is said of the crate, its categories and its
/// keywords, the license of its last version, no downloads, owners and reverse
/// dependencies, and all its versions or the last alone.
pub proof fn law_assembled_crate(
    full: FullCrate,
    response: CrateResponse,
    entries: Seq<IndexEntry>,
    all_versions: bool,
)
    requires
        full.deep_view() == full_crate_of(response.deep_view(), views_of(entries), all_versions),
    ensures
        full.id@ == response.crate_data.id@,
        full.name@ == response.crate_data.name@,
        full.max_version@ == response.crate_data.max_version@,
        full.description.deep_view() == response.crate_data.description.deep_view(),
        full.documentation.deep_view() == response.crate_data.documentation.deep_view(),
        full.homepage.deep_view() == response.crate_data.homepage.deep_view(),
        full.repository.deep_view() == response.crate_data.repository.deep_view(),
        full.max_stable_version.deep_view() == response.crate_data.max_stable_version.deep_view(),
        full.total_downloads == response.crate_data.downloads,
        full.created_at == response.crate_data.created_at,
        full.updated_at == response.crate_data.updated_at,
        full.categories@ == response.categories@,
        full.keywords@ == response.keywords@,
        full.downloads.version_downloads@.len() == 0,
        full.downloads.meta.extra_downloads@.len() == 0,
        full.owners@.len() == 0,
        full.reverse_dependencies.dependencies@.len() == 0,
        full.reverse_dependencies.meta.total == 0,
        all_versions ==> full.versions@.len() == response.versions@.len(),
        !all_versions && response.versions@.len() > 0 ==> full.versions@.len() == 1,
        response.versions@.len() == 0 ==> full.versions@.len() == 0,
        response.versions@.len() == 0 ==> full.license is None,
        response.versions@.len() > 0 ==> full.license.deep_view()
            == response.versions@.last().license.deep_view(),
{
    let view = full.deep_view();
    let source = response.deep_view();
    assert(view.versions.len() == full.versions@.len());
    assert(source.versions.len() == response.versions@.len());
    assert(view.owners.len() == full.owners@.len());
    assert(view.reverse_dependencies.dependencies.len()
        == full.reverse_dependencies.dependencies@.len());
    if response.versions@.len() > 0 {
        assert(source.versions.last() == response.versions@.last().deep_view());
    }
}

/// A version that is described in full is what is said of the version, with the
/// dependencies of the first line that has its text.
pub proof fn law_assembled_version(
    full: FullCrate,
    response: CrateResponse,
    entries: Seq<IndexEntry>,
    all_versions: bool,
    i: int,
    at: int,
)
    requires
        full.deep_view() == full_crate_of(response.deep_view(), views_of(entries), all_versions),
        0 <= i < response.versions@.len(),
        all_versions ==> at == i,
        !all_versions ==> i == response.versions@.len() - 1 && at == 0,
    ensures
        ({
            let source = response.versions@[i];
            let version = full.versions@[at];
            &&& version.dl_path@ == source.dl_path@
            &&& version.num@ == source.num@
            &&& version.created_at == source.created_at
            &&& version.updated_at == source.updated_at
            &&& version.downloads == source.downloads
            &&& version.id == source.id
            &&& version.yanked == source.yanked
            &&& version.features@ == source.features@
            &&& version.license.deep_view() == source.license.deep_view()
            &&& version.readme_path.deep_view() == source.readme_path.deep_view()
            &&& version.links.authors@ == Seq::<char>::empty()
            &&& version.links.dependencies@ == source.links.dependencies@
            &&& version.links.version_downloads@ == source.links.version_downloads@
            &&& version.author_names@.len() == 0
            &&& version.dependencies@.len() > 0 ==> exists|k: int|
                0 <= k < entries.len() && (#[trigger] entries[k]).vers@ == source.num@
            &&& forall|k: int|
                0 <= k < entries.len() && (#[trigger] entries[k]).vers@ == source.num@ && (forall|
                    j: int,
                |
                    0 <= j < k ==> (#[trigger] entries[j]).vers@ != source.num@)
                    ==> version.dependencies@.len() == entries[k].deps@.len() && forall|d: int|
                    0 <= d < version.dependencies@.len() ==> {
                        let dependency = #[trigger] version.dependencies@[d];
                        let dep = entries[k].deps@[d];
                        &&& dep.package matches Some(package) ==> dependency.crate_id@ == package@
                        &&& dep.package is None ==> dependency.crate_id@ == dep.name@
                        &&& dependency.req@ == dep.req@
                        &&& dependency.features.deep_view() == dep.features.deep_view()
                        &&& dependency.optional == dep.optional
                        &&& dependency.default_features == dep.default_features
                        &&& dependency.target.deep_view() == dep.target.deep_view()
                        &&& dep.kind matches Some(kind) ==> dependency.kind@ == kind@
                        &&& dep.kind is None ==> dependency.kind@ == "normal"@
                        &&& dependency.downloads == 0
                        &&& dependency.id == 0
                        &&& dependency.version_id == 0
                    }
        }),
{
    let view = full.deep_view();
    let source = response.versions@[i];
    let version = full.versions@[at];
    assert(view.versions.len() == full.versions@.len());
    assert(response.deep_view().versions.len() == response.versions@.len());
    assert(view.versions[at] == version.deep_view());
    assert(response.deep_view().versions[i] == source.deep_view());
    assert(version.author_names.deep_view().len() == version.author_names@.len());
    assert(version.dependencies.deep_view().len() == version.dependencies@.len());
    lemma_dependencies(source.num@, entries);
    assert forall|k: int|
        0 <= k < entries.len() && (#[trigger] entries[k]).vers@ == source.num@ && (forall|j: int|
            0 <= j < k ==> (#[trigger] entries[j]).vers@ != source.num@)
            implies version.dependencies@.len() == entries[k].deps@.len() && forall|d: int|
        0 <= d < version.dependencies@.len() ==> {
            let dependency = #[trigger] version.dependencies@[d];
            let dep = entries[k].deps@[d];
            &&& dep.package matches Some(package) ==> dependency.crate_id@ == package@
            &&& dep.package is None ==> dependency.crate_id@ == dep.name@
            &&& dependency.req@ == dep.req@
            &&& dependency.features.deep_view() == dep.features.deep_view()
            &&& dependency.optional == dep.optional
            &&& dependency.default_features == dep.default_features
            &&& dependency.target.deep_view() == dep.target.deep_view()
            &&& dep.kind matches Some(kind) ==> dependency.kind@ == kind@
            &&& dep.kind is None ==> dependency.kind@ == "normal"@
            &&& dependency.downloads == 0
            &&& dependency.id == 0
            &&& dependency.version_id == 0
        } by {
        lemma_listed_dependencies(version.dependencies, source.num@, entries, k);
    }
}

/// Everything about a crate is found just where its file has a line; otherwise
/// the crate is not found at the URL of the file. It has every version, or the
/// last alone.
pub proof fn law_found_full_crate(
    found: Result<FullCrate, Error>,
    crate_name: Seq<char>,
    entries: Seq<IndexEntry>,
    all_versions: bool,
    now: Timestamp,
)
    requires
        full_crate_found(found, crate_name, views_of(entries), all_versions, now),
        entries.len() <= u64::MAX,
    ensures
        found is Ok == (entries.len() > 0),
        found is Err ==> (found matches Err(Error::NotFound(error)) && error.url@
            == "https://index.crates.io/"@ + path_of(lowercased(crate_name))),
        found matches Ok(full) ==> {
            &&& full.id@ == entries[0].name@
            &&& full.name@ == entries[0].name@
            &&& full.description is None
            &&& full.license is None
            &&& full.documentation is None
            &&& full.homepage is None
            &&& full.repository is None
            &&& full.total_downloads == 0
            &&& full.created_at == now
            &&& full.updated_at == now
            &&& full.categories@.len() == 0
            &&& full.keywords@.len() == 0
            &&& full.downloads.version_downloads@.len() == 0
            &&& full.downloads.meta.extra_downloads@.len() == 0
            &&& full.owners@.len() == 0
            &&& full.reverse_dependencies.dependencies@.len() == 0
            &&& full.reverse_dependencies.meta.total == 0
            &&& full.versions@.len() == (if all_versions {
                entries.len()
            } else {
                1
            })
            &&& (exists|i: int| considered(entries, i)) ==> exists|i: int| #[trigger]
                considered(entries, i) && full.max_version@ == entries[i].vers@ && forall|j: int| #[trigger]
                    considered(entries, j) ==> !before(place(entries[i]), place(entries[j]))
            &&& !(exists|i: int| considered(entries, i)) ==> full.max_version@ == Seq::<char>::empty()
            &&& full.max_stable_version is Some == exists|i: int| considered_stable(entries, i)
            &&& full.max_stable_version matches Some(text) ==> exists|i: int| #[trigger]
                considered_stable(entries, i) && text@ == entries[i].vers@ && forall|j: int| #[trigger]
                    considered_stable(entries, j) ==> !before(place(entries[i]), place(entries[j]))
        },
{
    if let Ok(full) = found {
        let view = full.deep_view();
        let last = views_of(entries).last();
        lemma_max_versions(entries);
        assert(view.versions.len() == full.versions@.len());
        assert(view.owners.len() == full.owners@.len());
        assert(view.reverse_dependencies.dependencies.len()
            == full.reverse_dependencies.dependencies@.len());
        assert(views_of(entries)[0] == entries[0].deep_view());
    }
}

/// A version of everything that is found about a crate is what its line says,
/// with the path of the crate's file and the links made of the crate's name and
/// the version's text, and with the dependencies of the first line that has the
/// same text. The latest version is that of the last line.
pub proof fn law_found_full_version(
    found: Result<FullCrate, Error>,
    crate_name: Seq<char>,
    entries: Seq<IndexEntry>,
    all_versions: bool,
    now: Timestamp,
    i: int,
    at: int,
    k: int,
)
    requires
        full_crate_found(found, crate_name, views_of(entries), all_versions, now),
        entries.len() <= u64::MAX,
        0 <= i < entries.len(),
        all_versions ==> at == i,
        !all_versions ==> i == entries.len() - 1 && at == 0,
        0 <= k <= i,
        entries[k].vers@ == entries[i].vers@,
        forall|j: int| 0 <= j < k ==> (#[trigger] entries[j]).vers@ != entries[i].vers@,
    ensures
        found matches Ok(full) && {
            let version = full.versions@[at];
            &&& version.created_at.secs == 0 && version.created_at.nanos == 0
            &&& version.updated_at.secs == 0 && version.updated_at.nanos == 0
            &&& version.dl_path@ == "/api/v1/crates/"@ + entries[0].name@ + "/"@ + entries[i].vers@ + "/download"@
            &&& version.downloads == 0
            &&& forall|key: Seq<char>|
                #[trigger] version.features@.contains_key(key) == (entries[i].features@.contains_key(key)
                    || entries[i].features2@.contains_key(key))
            &&& forall|key: Seq<char>| #[trigger]
                version.features@.contains_key(key) ==> version.features@[key] == (if !entries[i].features2@.contains_key(key) {
                    entries[i].features@[key]
                } else if !entries[i].features@.contains_key(key) {
                    entries[i].features2@[key]
                } else {
                    entries[i].features@[key] + entries[i].features2@[key]
                })
            &&& version.id == i + 1
            &&& version.num@ == entries[i].vers@
            &&& version.yanked == entries[i].yanked
            &&& version.license is None
            &&& version.readme_path is None
            &&& version.links.authors@ == Seq::<char>::empty()
            &&& version.links.dependencies@ == "/api/v1/crates/"@ + entries[0].name@ + "/"@ + entries[i].vers@ + "/dependencies"@
            &&& version.links.version_downloads@ == "/api/v1/crates/"@ + entries[0].name@ + "/"@ + entries[i].vers@ + "/downloads"@
            &&& version.author_names@.len() == 0
            &&& version.dependencies@.len() == entries[k].deps@.len()
            &&& forall|d: int|
                0 <= d < version.dependencies@.len() ==> {
                    let dependency = #[trigger] version.dependencies@[d];
                    let dep = entries[k].deps@[d];
                    &&& dep.package matches Some(package) ==> dependency.crate_id@ == package@
                    &&& dep.package is None ==> dependency.crate_id@ == dep.name@
                    &&& dependency.req@ == dep.req@
                    &&& dependency.features.deep_view() == dep.features.deep_view()
                    &&& dependency.optional == dep.optional
                    &&& dependency.default_features == dep.default_features
                    &&& dependency.target.deep_view() == dep.target.deep_view()
                    &&& dep.kind matches Some(kind) ==> dependency.kind@ == kind@
                    &&& dep.kind is None ==> dependency.kind@ == "normal"@
                    &&& dependency.downloads == 0
                    &&& dependency.id == 0
                    &&& dependency.version_id == 0
                }
        },
{
    let full = found->Ok_0;
    let view = full.deep_view();
    let views = views_of(entries);
    let response = response_of(crate_name, views, now);
    let version = full.versions@[at];
    assert(view.versions.len() == full.versions@.len());
    assert(view.versions[at] == version.deep_view());
    assert(views[i] == entries[i].deep_view());
    assert(views[0] == entries[0].deep_view());
    assert(response.versions[i] == version_of(
        entries[0].name@,
        entries[i].deep_view(),
        (i + 1) as u64,
    ));
    assert(version.author_names.deep_view().len() == version.author_names@.len());
    lemma_listed_dependencies(version.dependencies, entries[i].vers@, entries, k);
}

/// What is found about a crate as a whole agrees with what is found when the
/// crate is looked up: the highest versions, and of each version its path, its
/// features, its number, its text and its links.
pub proof fn law_lookups_agree(
    full_found: Result<FullCrate, Error>,
    found: Result<CrateResponse, Error>,
    crate_name: Seq<char>,
    entries: Seq<IndexEntry>,
    now: Timestamp,
    later: Timestamp,
)
    requires
        full_crate_found(full_found, crate_name, views_of(entries), true, now),
        crate_found(found, crate_name, views_of(entries), later),
    ensures
        full_found is Ok == found is Ok,
        full_found matches Ok(full) ==> (found matches Ok(response) && {
            &&& full.name@ == response.crate_data.name@
            &&& full.max_version@ == response.crate_data.max_version@
            &&& full.max_stable_version.deep_view()
                == response.crate_data.max_stable_version.deep_view()
            &&& full.versions@.len() == response.versions@.len()
            &&& forall|i: int|
                0 <= i < full.versions@.len() ==> {
                    let version = #[trigger] full.versions@[i];
                    let source = response.versions@[i];
                    &&& version.dl_path@ == source.dl_path@
                    &&& version.num@ == source.num@
                    &&& version.created_at == source.created_at
                    &&& version.updated_at == source.updated_at
                    &&& version.downloads == source.downloads
                    &&& version.id == source.id
                    &&& version.yanked == source.yanked
                    &&& version.features@ == source.features@
                    &&& version.license.deep_view() == source.license.deep_view()
                    &&& version.readme_path.deep_view() == source.readme_path.deep_view()
                    &&& version.links.authors@ == Seq::<char>::empty()
                    &&& version.links.dependencies@ == source.links.dependencies@
                    &&& version.links.version_downloads@ == source.links.version_downloads@
                    &&& version.author_names@.len() == 0
                }
        }),
{
    if let Ok(full) = full_found {
        let response = found->Ok_0;
        let view = full.deep_view();
        let source_view = response.deep_view();
        assert(view.versions.len() == full.versions@.len());
        assert(source_view.versions.len() == response.versions@.len());
        assert forall|i: int| 0 <= i < full.versions@.len() implies {
            let version = #[trigger] full.versions@[i];
            let source = response.versions@[i];
            &&& version.dl_path@ == source.dl_path@
            &&& version.num@ == source.num@
            &&& version.created_at == source.created_at
            &&& version.updated_at == source.updated_at
            &&& version.downloads == source.downloads
            &&& version.id == source.id
            &&& version.yanked == source.yanked
            &&& version.features@ == source.features@
            &&& version.license.deep_view() == source.license.deep_view()
            &&& version.readme_path.deep_view() == source.readme_path.deep_view()
            &&& version.links.authors@ == Seq::<char>::empty()
            &&& version.links.dependencies@ == source.links.dependencies@
            &&& version.links.version_downloads@ == source.links.version_downloads@
            &&& version.author_names@.len() == 0
        } by {
            let version = full.versions@[i];
            assert(view.versions[i] == version.deep_view());
            assert(source_view.versions[i] == response.versions@[i].deep_view());
            assert(version.author_names.deep_view().len() == version.author_names@.len());
        }
    }
}

// ── Conversion of single entries ────────────────────────────────────────────

/// The version that an entry is converted to is what the entry says under its
/// own name, numbered by its name and its version text.
pub proof fn law_converted_version(version: Version, entry: IndexEntry)
    requires
        version.deep_view() == version_of(
            entry.name@,
            entry.deep_view(),
            id_of(entry.name@, entry.vers@),
        ),
    ensures
        version.crate_name@ == entry.name@,
        version.created_at.secs == 0 && version.created_at.nanos == 0,
        version.updated_at.secs == 0 && version.updated_at.nanos == 0,
        version.dl_path@ == "/api/v1/crates/"@ + entry.name@ + "/"@ + entry.vers@ + "/download"@,
        version.downloads == 0,
        forall|key: Seq<char>|
                #[trigger] version.features@.contains_key(key) == (entry.features@.contains_key(key)
                    || entry.features2@.contains_key(key)),
        forall|key: Seq<char>| #[trigger]
                version.features@.contains_key(key) ==> version.features@[key] == (if !entry.features2@.contains_key(key) {
                    entry.features@[key]
                } else if !entry.features@.contains_key(key) {
                    entry.features2@[key]
                } else {
                    entry.features@[key] + entry.features2@[key]
                }),
        version.id == DefaultHasher::spec_finish(
            text_writes(entry.name@) + char_writes('\0') + text_writes(entry.vers@),
        ),
        version.num@ == entry.vers@,
        version.yanked == entry.yanked,
        version.license is None,
        version.readme_path is None,
        version.links.authors@ == Seq::<char>::empty(),
        version.links.dependencies@ == "/api/v1/crates/"@ + entry.name@ + "/"@ + entry.vers@ + "/dependencies"@,
        version.links.version_downloads@ == "/api/v1/crates/"@ + entry.name@ + "/"@ + entry.vers@ + "/downloads"@,
        version.crate_size is None,
        version.published_by is None,
{
    lemma_version_fields(version, entry.name@, entry, id_of(entry.name@, entry.vers@));
}

/// The dependency that a dependency of an entry is converted to is what the
/// entry says, under the name of the package, numbered by that name and the
/// requirement, and with the number of its version.
pub proof fn law_converted_dependency(dependency: Dependency, dep: IndexDep, version_id: u64)
    requires
        dependency.deep_view() == dependency_of(
            dep.deep_view(),
            id_of(dependency_of(dep.deep_view(), 0, 0).crate_id, dep.req@),
            version_id,
        ),
    ensures
        dep.package matches Some(package) ==> dependency.crate_id@ == package@,
        dep.package is None ==> dependency.crate_id@ == dep.name@,
        dependency.req@ == dep.req@,
        dependency.features.deep_view() == dep.features.deep_view(),
        dependency.optional == dep.optional,
        dependency.default_features == dep.default_features,
        dependency.target.deep_view() == dep.target.deep_view(),
        dep.kind matches Some(kind) ==> dependency.kind@ == kind@,
        dep.kind is None ==> dependency.kind@ == "normal"@,
        dependency.downloads == 0,
        dependency.id == DefaultHasher::spec_finish(
            text_writes(dependency.crate_id@) + char_writes('\0') + text_writes(dep.req@),
        ),
        dependency.version_id == version_id,
{
    let id = id_of(dependency_of(dep.deep_view(), 0, 0).crate_id, dep.req@);
    lemma_dependency_fields(dependency, dep, id, version_id);
}

/// The crate that entries are converted to goes by the name of the first, lists
/// the numbers of all, and names the highest version and the highest stable one
/// that is not yanked; what the index does not hold is absent.
pub proof fn law_converted_crate(
    data: Crate,
    queried_name: Seq<char>,
    entries: Seq<IndexEntry>,
    name: Seq<char>,
)
    requires
        data.deep_view() == crate_of(
            display_name(queried_name, views_of(entries)),
            views_of(entries).map_values(|entry: IndexEntryView| id_of(entry.name, entry.vers)),
            or_empty(max_version_of(views_of(entries))),
            highest_version_of(
                views_of(entries),
                Admission { yanked: false, prereleases: false },
            ),
            Some(crate_path(display_name(queried_name, views_of(entries)), "/versions"@)),
            unix_epoch(),
        ),
        name == (if entries.len() == 0 {
            queried_name
        } else {
            entries[0].name@
        }),
    ensures
        data.id@ == name,
        data.name@ == name,
        data.description is None,
        data.license is None,
        data.documentation is None,
        data.homepage is None,
        data.repository is None,
        data.recent_downloads is None,
        data.downloads == 0,
        data.categories matches Some(list) && list@.len() == 0,
        data.keywords matches Some(list) && list@.len() == 0,
        data.links.owner_team@ == "/api/v1/crates/"@ + name + "/owner_team"@,
        data.links.owner_user@ == "/api/v1/crates/"@ + name + "/owner_user"@,
        data.links.owners@ == "/api/v1/crates/"@ + name + "/owners"@,
        data.links.reverse_dependencies@ == "/api/v1/crates/"@ + name + "/reverse_dependencies"@,
        data.links.version_downloads@ == "/api/v1/crates/"@ + name + "/downloads"@,
        data.links.versions matches Some(link) && link@ == "/api/v1/crates/"@ + name
            + "/versions"@,
        data.created_at.secs == 0 && data.created_at.nanos == 0,
        data.updated_at.secs == 0 && data.updated_at.nanos == 0,
        data.exact_match == Some(true),
        data.versions matches Some(list) && list@.len() == entries.len() && forall|i: int|
                0 <= i < entries.len() ==> #[trigger] list@[i] == DefaultHasher::spec_finish(
                    text_writes(entries[i].name@) + char_writes('\0') + text_writes(
                        entries[i].vers@,
                    ),
                ),
        (exists|i: int| considered(entries, i)) ==> exists|i: int| #[trigger]
                considered(entries, i) && data.max_version@ == entries[i].vers@ && forall|j: int| #[trigger]
                    considered(entries, j) ==> !before(place(entries[i]), place(entries[j])),
        !(exists|i: int| considered(entries, i)) ==> data.max_version@ == Seq::<char>::empty(),
        data.max_stable_version is Some == exists|i: int| current_stable(entries, i),
        data.max_stable_version matches Some(text) ==> exists|i: int| #[trigger]
                current_stable(entries, i) && text@ == entries[i].vers@ && forall|j: int| #[trigger]
                    current_stable(entries, j) ==> !before(place(entries[i]), place(entries[j])),
{
    let view = data.deep_view();
    let views = views_of(entries);
    if entries.len() > 0 {
        assert(views[0] == entries[0].deep_view());
    }
    lemma_max_versions(entries);
    law_found_max_stable_version(data.max_stable_version, entries);
    assert(data.categories.deep_view() == Some(Seq::<Seq<char>>::empty()));
    assert(data.keywords.deep_view() == Some(Seq::<Seq<char>>::empty()));
    assert(data.categories->0.deep_view().len() == data.categories->0@.len());
    assert(data.keywords->0.deep_view().len() == data.keywords->0@.len());
    let ids = data.versions->0;
    assert(ids.deep_view() == view.versions->0);
    assert(ids.deep_view().len() == ids@.len());
    assert forall|i: int| 0 <= i < entries.len() implies #[trigger] ids@[i]
        == DefaultHasher::spec_finish(
        text_writes(entries[i].name@) + char_writes('\0') + text_writes(entries[i].vers@),
    ) by {
        assert(ids.deep_view()[i] == ids@[i]);
        assert(views[i] == entries[i].deep_view());
    }
    assert(view.links.versions == data.links.versions.deep_view());
}

// ── What the index does not hold ────────────────────────────────────────────

/// Empty download statistics hold no downloads of either sort.
pub proof fn law_no_downloads(downloads: CrateDownloads)
    requires
        downloads.deep_view() == no_downloads(),
    ensures
        downloads.version_downloads@.len() == 0,
        downloads.meta.extra_downloads@.len() == 0,
{
}

/// Empty reverse dependencies hold none, and count none.
pub proof fn law_no_reverse_dependencies(rdeps: ReverseDependencies)
    requires
        rdeps.deep_view() == no_reverse_dependencies(),
    ensures
        rdeps.dependencies@.len() == 0,
        rdeps.meta.total == 0,
{
    assert(rdeps.deep_view().dependencies.len() == rdeps.dependencies@.len());
}

/// Adding a page to the reverse dependencies keeps those that are there, puts
/// those of the page behind them, and takes over the total of the page.
pub proof fn law_extended(
    earlier: ReverseDependencies,
    later: ReverseDependencies,
    page: ReverseDependenciesAsReceived,
)
    requires
        later.deep_view() == (ReverseDependenciesView {
            dependencies: earlier.deep_view().dependencies + paired(
                page.dependencies.deep_view(),
                page.versions.deep_view(),
            ),
            total: page.meta.total,
        }),
    ensures
        later.meta.total == page.meta.total,
        later.dependencies@.len() == earlier.dependencies@.len() + paired(
            page.dependencies.deep_view(),
            page.versions.deep_view(),
        ).len(),
        forall|i: int|
            0 <= i < earlier.dependencies@.len() ==> (#[trigger] later.dependencies@[i]).deep_view()
                == earlier.dependencies@[i].deep_view(),
        forall|i: int|
            earlier.dependencies@.len() <= i < later.dependencies@.len() ==> exists|d: int, v: int|
                #![trigger page.dependencies@[d], page.versions@[v]]
                0 <= d < page.dependencies@.len() && 0 <= v < page.versions@.len()
                    && page.dependencies@[d].version_id == page.versions@[v].id && (
                #[trigger] later.dependencies@[i]).dependency.deep_view()
                    == page.dependencies@[d].deep_view()
                    && later.dependencies@[i].crate_version.deep_view()
                    == page.versions@[v].deep_view(),
{
    let dependencies = page.dependencies.deep_view();
    let versions = page.versions.deep_view();
    let pairs = paired(dependencies, versions);
    let count = earlier.dependencies@.len();
    assert(later.deep_view().dependencies.len() == later.dependencies@.len());
    assert(earlier.deep_view().dependencies.len() == count);
    assert forall|i: int| 0 <= i < count implies (#[trigger] later.dependencies@[i]).deep_view()
        == earlier.dependencies@[i].deep_view() by {
        assert(later.deep_view().dependencies[i] == later.dependencies@[i].deep_view());
        assert(earlier.deep_view().dependencies[i] == earlier.dependencies@[i].deep_view());
    }
    assert forall|i: int| count <= i < later.dependencies@.len() implies exists|d: int, v: int|
        #![trigger page.dependencies@[d], page.versions@[v]]
        0 <= d < page.dependencies@.len() && 0 <= v < page.versions@.len()
            && page.dependencies@[d].version_id == page.versions@[v].id && (
        #[trigger] later.dependencies@[i]).dependency.deep_view()
            == page.dependencies@[d].deep_view()
            && later.dependencies@[i].crate_version.deep_view() == page.versions@[v].deep_view() by {
        let pair = pairs[i - count];
        assert(later.deep_view().dependencies[i] == later.dependencies@[i].deep_view());
        crate::laws::law_pairs_belong_together(dependencies, versions, i - count);
        let d = choose|d: int| 0 <= d < dependencies.len() && dependencies[d] == pair.dependency;
        let v = choose|v: int| 0 <= v < versions.len() && versions[v] == pair.crate_version;
        assert(dependencies[d] == page.dependencies@[d].deep_view());
        assert(versions[v] == page.versions@[v].deep_view());
    }
}

/// The pairs of two lists of dependencies are those of the one and then those of
/// the other.
pub proof fn law_pairs_of_joined_lists(
    dependencies: Seq<DependencyView>,
    more: Seq<DependencyView>,
    versions: Seq<VersionView>,
)
    ensures
        paired(dependencies + more, versions) == paired(dependencies, versions) + paired(
            more,
            versions,
        ),
    decreases more.len(),
{
    if more.len() == 0 {
        assert(dependencies + more =~= dependencies);
        assert(paired(dependencies, versions) + paired(more, versions) =~= paired(
            dependencies,
            versions,
        ));
    } else {
        law_pairs_of_joined_lists(dependencies, more.drop_last(), versions);
        assert((dependencies + more).drop_last() =~= dependencies + more.drop_last());
        assert(paired(dependencies + more, versions) =~= paired(dependencies, versions) + paired(
            more,
            versions,
        ));
    }
}

/// A dependency is paired with the version whose number it bears, the last one
/// where several bear it, and left out where none does.
pub proof fn law_pair_of_a_dependency(
    dependency: DependencyView,
    versions: Seq<VersionView>,
    k: int,
)
    requires
        -1 <= k < versions.len(),
        k >= 0 ==> versions[k].id == dependency.version_id,
        forall|j: int| k < j < versions.len() ==> (#[trigger] versions[j]).id
            != dependency.version_id,
    ensures
        k < 0 ==> paired(seq![dependency], versions) == Seq::<ReverseDependencyView>::empty(),
        k >= 0 ==> paired(seq![dependency], versions) == seq![
            ReverseDependencyView { crate_version: versions[k], dependency },
        ],
{
    let one = seq![dependency];
    assert(one.drop_last() =~= Seq::<DependencyView>::empty());
    assert(paired(one.drop_last(), versions) =~= Seq::<ReverseDependencyView>::empty());
    lemma_last_numbered(versions, dependency.version_id, k);
    assert(one.last() == dependency);
}

proof fn lemma_last_numbered(versions: Seq<VersionView>, id: u64, k: int)
    requires
        -1 <= k < versions.len(),
        k >= 0 ==> versions[k].id == id,
        forall|j: int| k < j < versions.len() ==> (#[trigger] versions[j]).id != id,
    ensures
        version_numbered(versions, id) == (if k < 0 {
            None
        } else {
            Some(versions[k])
        }),
    decreases versions.len(),
{
    if versions.len() > 0 && k < versions.len() - 1 {
        assert(versions[versions.len() - 1].id != id);
        assert forall|j: int| k < j < versions.drop_last().len() implies (
        #[trigger] versions.drop_last()[j]).id != id by {
            assert(versions[j].id != id);
        }
        lemma_last_numbered(versions.drop_last(), id, k);
    }
}

// ── What the views keep ─────────────────────────────────────────────────────

/// The view of a version has every field of the version.
pub proof fn law_view_of_version(version: Version)
    ensures
        version.deep_view().crate_name == version.crate_name@,
        version.deep_view().created_at == version.created_at,
        version.deep_view().updated_at == version.updated_at,
        version.deep_view().dl_path == version.dl_path@,
        version.deep_view().downloads == version.downloads,
        version.deep_view().features == version.features@,
        version.deep_view().id == version.id,
        version.deep_view().num == version.num@,
        version.deep_view().yanked == version.yanked,
        version.deep_view().license == version.license.deep_view(),
        version.deep_view().readme_path == version.readme_path.deep_view(),
        version.deep_view().crate_size == version.crate_size,
        version.deep_view().links.authors == version.links.authors@,
        version.deep_view().links.dependencies == version.links.dependencies@,
        version.deep_view().links.version_downloads == version.links.version_downloads@,
        version.published_by is None == version.deep_view().published_by is None,
        version.published_by matches Some(user) ==> version.deep_view().published_by == Some(
            user.deep_view(),
        ),
{
}

/// The view of a dependency has every field of the dependency.
pub proof fn law_view_of_dependency(dependency: Dependency)
    ensures
        dependency.deep_view().crate_id == dependency.crate_id@,
        dependency.deep_view().default_features == dependency.default_features,
        dependency.deep_view().downloads == dependency.downloads,
        dependency.deep_view().features == dependency.features.deep_view(),
        dependency.deep_view().id == dependency.id,
        dependency.deep_view().kind == dependency.kind@,
        dependency.deep_view().optional == dependency.optional,
        dependency.deep_view().req == dependency.req@,
        dependency.deep_view().target == dependency.target.deep_view(),
        dependency.deep_view().version_id == dependency.version_id,
{
}

/// The view of a user has every field of the user.
pub proof fn law_view_of_user(user: User)
    ensures
        user.deep_view().avatar == user.avatar.deep_view(),
        user.deep_view().email == user.email.deep_view(),
        user.deep_view().id == user.id,
        user.deep_view().kind == user.kind.deep_view(),
        user.deep_view().login == user.login@,
        user.deep_view().name == user.name.deep_view(),
        user.deep_view().url == user.url@,
{
}

/// The error of an operation that is not supported is one API error, which names
/// the operation and those to use instead.
pub proof fn law_not_supported(error: Error, operation: Seq<char>)
    requires
        says_not_supported(error, operation),
    ensures
        error matches Error::Api(errors) && errors.errors@.len() == 1 && (
        errors.errors@[0].detail matches Some(text) && text@ == "Operation '"@ + operation
            + "' is not available via the sparse registry index. Use get_crate() or crate_dependencies() instead."@),
{
    let errors = error->Api_0;
    let view = errors.deep_view();
    assert(view.len() == errors.errors@.len());
    assert(view[0] == errors.errors@[0].detail.deep_view());
}

/// The asynchronous client says of a version that is not there which version of
/// which crate it is.
pub proof fn law_missing_version(crate_name: Seq<char>, version: Seq<char>)
    ensures
        missing_version_text(crate_name, version) == "crate '"@ + crate_name + "' version '"@
            + version + "' not found in sparse index"@,
{
}

// ── Requests ────────────────────────────────────────────────────────────────

/// A request for a crate's file is made just where the name has no slash and the
/// URL can be parsed; a name with a slash is not found at the URL of the file,
/// and an URL that cannot be parsed is reported. The request is sent to the URL
/// of the file in its normal form.
pub proof fn law_request(request: Result<IndexRequest, Error>, crate_name: Seq<char>)
    requires
        request_made(request, crate_name),
    ensures
        ({
            let url = "https://index.crates.io/"@ + path_of(lowercased(crate_name));
            &&& request is Ok == (!crate_name.contains('/') && crate::index::parsed_url(url) is Ok)
            &&& request matches Ok(made) ==> made@ == crate_name
            &&& crate_name.contains('/') ==> (request matches Err(Error::NotFound(error))
                && error.url@ == url)
            &&& !crate_name.contains('/') && request is Err ==> (request matches Err(
                Error::Url(error),
            ) && crate::index::parsed_url(url) == Err::<Seq<char>, url::ParseError>(error))
            &&& crate::index::parsed_url(url) matches Ok(normal) ==> normal_file_url(crate_name)
                == normal
        }),
{
}

/// A name of ASCII letters, digits, `-` and `_` can always be asked for, at the
/// base of the index and the path of its lower-case letters, as it stands.
pub proof fn law_request_of_ordinary_name(
    request: Result<IndexRequest, Error>,
    crate_name: Seq<char>,
)
    requires
        request_made(request, crate_name),
        forall|i: int|
            0 <= i < crate_name.len() ==> {
                ||| 'a' <= #[trigger] crate_name[i] && crate_name[i] <= 'z'
                ||| 'A' <= crate_name[i] && crate_name[i] <= 'Z'
                ||| '0' <= crate_name[i] && crate_name[i] <= '9'
                ||| crate_name[i] == '-' || crate_name[i] == '_'
            },
    ensures
        request is Ok,
        normal_file_url(crate_name) == "https://index.crates.io/"@ + path_of(
            crate_name.map_values(
                |c: char|
                    if 'A' <= c && c <= 'Z' {
                        ((c as u32) + 32) as char
                    } else {
                        c
                    },
            ),
        ),
{
    assert(crate::index::ordinary_name(crate_name));
    crate::index::lemma_ordinary_url(crate_name);
    let lower = crate::text::ascii_lower(crate_name);
    assert(lower =~= crate_name.map_values(
        |c: char|
            if 'A' <= c && c <= 'Z' {
                ((c as u32) + 32) as char
            } else {
                c
            },
    ));
    crate::index::lemma_ascii_lower_is_ascii(crate_name);
    crate::index::law_ascii_path(lower);
}

} // verus!
