//! What the entries of an index file say of a crate.
//!
//! The index holds part of what the registry's types can hold. What it does
//! not hold is filled in with zero, nothing, an empty list or the Unix epoch.
use vstd::prelude::*;
use vstd::string::*;

use crate::entry::{IndexDep, IndexDepView, IndexEntry, IndexEntryView};
use crate::error::Error;
use crate::features::merged;
use crate::precedence::{pick_highest, winner, Admission, Candidate};
use crate::semantic::{parse_version, read_as, semver_of};
use crate::text::{copy_optional, copy_texts, same_text};
use crate::time::{clock_reading, unix_epoch, utc_now, utc_timestamp_opt, Timestamp};
use crate::types::{
    ApiError, ApiErrors, Crate, CrateDownloads, CrateDownloadsMeta, CrateDownloadsView, CrateLinks,
    CrateLinksView, CrateResponse, CrateResponseView, CrateView, Dependency, DependencyView, Meta,
    ReverseDependencies, ReverseDependenciesView, Version, VersionLinks, VersionLinksView,
    VersionView,
};

verus! {

// ── Which version is the highest ────────────────────────────────────────────

/// The entries as candidates for the highest version.
pub open spec fn candidates_of(entries: Seq<IndexEntryView>) -> Seq<Candidate> {
    entries.map_values(
        |entry: IndexEntryView| Candidate { version: semver_of(entry.vers), yanked: entry.yanked },
    )
}

/// The text of the highest version among the entries that take part, if any
/// takes part.
pub open spec fn highest_version_of(
    entries: Seq<IndexEntryView>,
    admission: Admission,
) -> Option<Seq<char>> {
    match winner(candidates_of(entries), admission) {
        Some(i) => Some(entries[i].vers),
        None => None,
    }
}

/// The versions of the entries are read as [`read_as`] says.
pub open spec fn versions_read(entries: Seq<IndexEntryView>) -> bool {
    forall|i: int|
        0 <= i < entries.len() ==> read_as(
            (#[trigger] entries[i]).vers,
            semver_of(entries[i].vers),
        )
}

/// Whether every entry was yanked.
pub open spec fn all_yanked(entries: Seq<IndexEntryView>) -> bool {
    forall|i: int| 0 <= i < entries.len() ==> (#[trigger] entries[i]).yanked
}

/// A text that may be absent, or the empty text.
pub open spec fn or_empty(text: Option<Seq<char>>) -> Seq<char> {
    match text {
        Some(inner) => inner,
        None => Seq::empty(),
    }
}

/// The entries as candidates for the highest version.
fn candidates(entries: &[IndexEntry]) -> (list: Vec<Candidate>)
    ensures
        list@ == candidates_of(entries.deep_view()),
        versions_read(entries.deep_view()),
{
    let ghost views = entries.deep_view();
    let mut list: Vec<Candidate> = Vec::new();
    for i in 0..entries.len()
        invariant
            views == entries.deep_view(),
            list@.len() == i,
            forall|j: int|
                0 <= j < i ==> read_as((#[trigger] views[j]).vers, semver_of(views[j].vers)),
            forall|j: int|
                0 <= j < i ==> #[trigger] list@[j] == candidates_of(entries.deep_view())[j],
    {
        let version = parse_version(entries[i].vers.as_str());
        assert(views[i as int].vers == entries@[i as int].vers@);
        list.push(Candidate { version, yanked: entries[i].yanked });
    }
    assert(list@ =~= candidates_of(entries.deep_view()));
    list
}

/// The text of the highest version among the entries that take part.
pub fn highest_version(entries: &[IndexEntry], admission: Admission) -> (text: Option<String>)
    ensures
        text.deep_view() == highest_version_of(entries.deep_view(), admission),
        versions_read(entries.deep_view()),
{
    let list = candidates(entries);
    match pick_highest(&list, admission) {
        Some(i) => {
            proof {
                crate::precedence::law_winner(list@, admission);
            }
            Some(entries[i].vers.clone())
        },
        None => None,
    }
}

/// Whether every entry was yanked.
pub(crate) fn every_entry_yanked(entries: &[IndexEntry]) -> (yes: bool)
    ensures
        yes == all_yanked(entries.deep_view()),
{
    for i in 0..entries.len()
        invariant
            forall|j: int| 0 <= j < i ==> (#[trigger] entries.deep_view()[j]).yanked,
    {
        if !entries[i].yanked {
            assert(!entries.deep_view()[i as int].yanked);
            return false;
        }
    }
    true
}

// ── A version ───────────────────────────────────────────────────────────────

/// The path of an endpoint for a crate.
pub open spec fn crate_path(name: Seq<char>, endpoint: Seq<char>) -> Seq<char> {
    "/api/v1/crates/"@ + name + endpoint
}

/// The path of an endpoint for a crate version.
pub open spec fn version_path(name: Seq<char>, vers: Seq<char>, endpoint: Seq<char>) -> Seq<char> {
    "/api/v1/crates/"@ + name + "/"@ + vers + endpoint
}

/// What an entry says of its version, under the name of the crate and with the
/// number that the version gets.
pub open spec fn version_of(name: Seq<char>, entry: IndexEntryView, id: u64) -> VersionView {
    VersionView {
        crate_name: name,
        created_at: unix_epoch(),
        updated_at: unix_epoch(),
        dl_path: version_path(name, entry.vers, "/download"@),
        downloads: 0,
        features: merged(entry.features, entry.features2),
        id,
        num: entry.vers,
        yanked: entry.yanked,
        license: None,
        readme_path: None,
        links: VersionLinksView {
            authors: Seq::empty(),
            dependencies: version_path(name, entry.vers, "/dependencies"@),
            version_downloads: version_path(name, entry.vers, "/downloads"@),
        },
        crate_size: None,
        published_by: None,
    }
}

fn make_crate_path(name: &str, endpoint: &str) -> (path: String)
    ensures
        path@ == crate_path(name@, endpoint@),
{
    "/api/v1/crates/".to_owned().concat(name).concat(endpoint)
}

fn make_version_path(name: &str, vers: &str, endpoint: &str) -> (path: String)
    ensures
        path@ == version_path(name@, vers@, endpoint@),
{
    "/api/v1/crates/".to_owned().concat(name).concat("/").concat(vers).concat(endpoint)
}

/// What an entry says of its version; `epoch` stands for the times that the
/// index does not hold.
pub(crate) fn make_version(name: &str, entry: &IndexEntry, id: u64, epoch: Timestamp) -> (version:
    Version)
    requires
        epoch == unix_epoch(),
    ensures
        version.deep_view() == version_of(name@, entry.deep_view(), id),
{
    let vers = entry.vers.as_str();
    Version {
        crate_name: name.to_owned(),
        created_at: epoch,
        updated_at: epoch,
        dl_path: make_version_path(name, vers, "/download"),
        downloads: 0,
        features: entry.merged_features(),
        id,
        num: entry.vers.clone(),
        yanked: entry.yanked,
        license: None,
        readme_path: None,
        links: VersionLinks {
            authors: String::new(),
            dependencies: make_version_path(name, vers, "/dependencies"),
            version_downloads: make_version_path(name, vers, "/downloads"),
        },
        crate_size: None,
        published_by: None,
    }
}

// ── A crate ─────────────────────────────────────────────────────────────────

/// What the entries leave to be said of a crate once its name, the numbers of
/// its versions, its highest versions, the link to its versions and its time
/// are known.
pub open spec fn crate_of(
    name: Seq<char>,
    versions: Seq<u64>,
    max_version: Seq<char>,
    max_stable_version: Option<Seq<char>>,
    versions_link: Option<Seq<char>>,
    time: Timestamp,
) -> CrateView {
    CrateView {
        id: name,
        name,
        description: None,
        license: None,
        documentation: None,
        homepage: None,
        repository: None,
        downloads: 0,
        recent_downloads: None,
        categories: Some(Seq::empty()),
        keywords: Some(Seq::empty()),
        versions: Some(versions),
        max_version,
        max_stable_version,
        links: CrateLinksView {
            owner_team: crate_path(name, "/owner_team"@),
            owner_user: crate_path(name, "/owner_user"@),
            owners: crate_path(name, "/owners"@),
            reverse_dependencies: crate_path(name, "/reverse_dependencies"@),
            version_downloads: crate_path(name, "/downloads"@),
            versions: versions_link,
        },
        created_at: time,
        updated_at: time,
        exact_match: Some(true),
    }
}

pub(crate) fn make_crate(
    name: &str,
    versions: Vec<u64>,
    max_version: String,
    max_stable_version: Option<String>,
    versions_link: Option<String>,
    time: Timestamp,
) -> (data: Crate)
    ensures
        data.deep_view() == crate_of(
            name@,
            versions@,
            max_version@,
            max_stable_version.deep_view(),
            versions_link.deep_view(),
            time,
        ),
{
    let data = Crate {
        id: name.to_owned(),
        name: name.to_owned(),
        description: None,
        license: None,
        documentation: None,
        homepage: None,
        repository: None,
        downloads: 0,
        recent_downloads: None,
        categories: Some(Vec::new()),
        keywords: Some(Vec::new()),
        versions: Some(versions),
        max_version,
        max_stable_version,
        links: CrateLinks {
            owner_team: make_crate_path(name, "/owner_team"),
            owner_user: make_crate_path(name, "/owner_user"),
            owners: make_crate_path(name, "/owners"),
            reverse_dependencies: make_crate_path(name, "/reverse_dependencies"),
            version_downloads: make_crate_path(name, "/downloads"),
            versions: versions_link,
        },
        created_at: time,
        updated_at: time,
        exact_match: Some(true),
    };
    assert(data.categories->0.deep_view() =~= Seq::<Seq<char>>::empty());
    assert(data.keywords->0.deep_view() =~= Seq::<Seq<char>>::empty());
    assert(data.versions->0.deep_view() =~= versions@);
    data
}

/// The name under which the crate was published: that of the first entry, or
/// the one that was asked for if there is no entry.
pub open spec fn display_name(queried_name: Seq<char>, entries: Seq<IndexEntryView>) -> Seq<char> {
    if entries.len() > 0 {
        entries[0].name
    } else {
        queried_name
    }
}

/// The name under which the crate was published.
pub(crate) fn published_name<'a>(queried_name: &'a str, entries: &'a [IndexEntry]) -> (name: &'a str)
    ensures
        name@ == display_name(queried_name@, entries.deep_view()),
{
    if entries.len() > 0 {
        assert(entries.deep_view()[0].name == entries@[0].name@);
        entries[0].name.as_str()
    } else {
        queried_name
    }
}

/// The numbers of a crate's versions: their places in the file, counted from
/// one.
pub open spec fn version_ids(count: nat) -> Seq<u64> {
    Seq::new(count, |i: int| (i + 1) as u64)
}

/// What the entries of a crate's file say of it at the time `now`.
pub open spec fn response_of(
    queried_name: Seq<char>,
    entries: Seq<IndexEntryView>,
    now: Timestamp,
) -> CrateResponseView {
    let name = display_name(queried_name, entries);
    let yanked = all_yanked(entries);
    CrateResponseView {
        categories: Seq::empty(),
        crate_data: crate_of(
            name,
            version_ids(entries.len()),
            or_empty(highest_version_of(entries, Admission { yanked, prereleases: true })),
            highest_version_of(entries, Admission { yanked, prereleases: false }),
            None,
            now,
        ),
        keywords: Seq::empty(),
        versions: Seq::new(
            entries.len(),
            |i: int| version_of(name, entries[i], version_ids(entries.len())[i]),
        ),
    }
}

/// Convert a slice of sparse-index entries into a [`CrateResponse`].
///
/// Fields that are not available in the sparse index (downloads, authors,
/// owners, timestamps, etc.) are filled with safe zero/None/empty defaults so
/// that the returned value is always a valid [`CrateResponse`] that
/// downstream code can pattern-match on without special cases. The crate's own
/// times are the time of the call.
pub fn entries_to_crate_response(queried_name: &str, entries: &[IndexEntry]) -> (response:
    CrateResponse)
    ensures
        exists|now: Timestamp|
            clock_reading(now) && response.deep_view() == #[trigger] response_of(
                queried_name@,
                entries.deep_view(),
                now,
            ),
        versions_read(entries.deep_view()),
{
    let now = utc_now();
    entries_to_crate_response_at(queried_name, entries, now)
}

/// [`entries_to_crate_response`] at the time `now`.
pub fn entries_to_crate_response_at(
    queried_name: &str,
    entries: &[IndexEntry],
    now: Timestamp,
) -> (response: CrateResponse)
    ensures
        response.deep_view() == response_of(queried_name@, entries.deep_view(), now),
        versions_read(entries.deep_view()),
{
    let epoch = match utc_timestamp_opt(0, 0) {
        Some(epoch) => epoch,
        None => now,
    };
    let name = published_name(queried_name, entries);
    let yanked = every_entry_yanked(entries);
    let max_version = match highest_version(entries, Admission { yanked, prereleases: true }) {
        Some(text) => text,
        None => String::new(),
    };
    let max_stable_version = highest_version(entries, Admission { yanked, prereleases: false });

    let mut versions: Vec<Version> = Vec::new();
    let mut ids: Vec<u64> = Vec::new();
    for i in 0..entries.len()
        invariant
            epoch == unix_epoch(),
            ids@.len() == i,
            forall|j: int| 0 <= j < i ==> #[trigger] ids@[j] == version_ids(entries@.len())[j],
            versions@.len() == i,
            forall|j: int|
                0 <= j < i ==> (#[trigger] versions@[j]).deep_view() == version_of(
                    name@,
                    entries.deep_view()[j],
                    version_ids(entries@.len())[j],
                ),
    {
        let id = (i + 1) as u64;
        ids.push(id);
        versions.push(make_version(name, &entries[i], id, epoch));
    }
    assert(ids@ =~= version_ids(entries@.len()));
    let crate_data = make_crate(name, ids, max_version, max_stable_version, None, now);
    let response = CrateResponse {
        categories: Vec::new(),
        crate_data,
        keywords: Vec::new(),
        versions,
    };
    assert(response.deep_view() =~= response_of(queried_name@, entries.deep_view(), now));
    response
}

// ── Dependencies ────────────────────────────────────────────────────────────

/// What an entry says of a dependency, with the numbers that the dependency
/// and its version get. A renamed dependency goes by its real name.
pub open spec fn dependency_of(dep: IndexDepView, id: u64, version_id: u64) -> DependencyView {
    DependencyView {
        crate_id: match dep.package {
            Some(package) => package,
            None => dep.name,
        },
        default_features: dep.default_features,
        downloads: 0,
        features: dep.features,
        id,
        kind: match dep.kind {
            Some(kind) => kind,
            None => "normal"@,
        },
        optional: dep.optional,
        req: dep.req,
        target: dep.target,
        version_id,
    }
}

/// The name of the crate that a dependency is on: the package that it was
/// renamed from, or else its name.
pub(crate) fn package_name(dep: &IndexDep) -> (name: String)
    ensures
        name@ == dependency_of(dep.deep_view(), 0, 0).crate_id,
{
    match &dep.package {
        Some(package) => package.clone(),
        None => dep.name.clone(),
    }
}

pub(crate) fn make_dependency(dep: &IndexDep, id: u64, version_id: u64) -> (dependency: Dependency)
    ensures
        dependency.deep_view() == dependency_of(dep.deep_view(), id, version_id),
{
    let kind = match &dep.kind {
        Some(kind) => kind.clone(),
        None => "normal".to_owned(),
    };
    Dependency {
        crate_id: package_name(dep),
        default_features: dep.default_features,
        downloads: 0,
        features: copy_texts(&dep.features),
        id,
        kind,
        optional: dep.optional,
        req: dep.req.clone(),
        target: copy_optional(&dep.target),
        version_id,
    }
}

/// What an entry says of its dependencies.
pub open spec fn dependencies_of_entry(deps: Seq<IndexDepView>) -> Seq<DependencyView> {
    deps.map_values(|dep: IndexDepView| dependency_of(dep, 0, 0))
}

/// The entry at `i` is the first of the version.
pub open spec fn first_of_version(
    entries: Seq<IndexEntryView>,
    version: Seq<char>,
    i: int,
) -> bool {
    &&& 0 <= i < entries.len()
    &&& entries[i].vers == version
    &&& forall|j: int| 0 <= j < i ==> (#[trigger] entries[j]).vers != version
}

/// The dependencies of a version: those of the first entry of the version, if
/// there is one.
pub open spec fn dependencies_of(
    version: Seq<char>,
    entries: Seq<IndexEntryView>,
) -> Option<Seq<DependencyView>> {
    if exists|i: int| first_of_version(entries, version, i) {
        let i = choose|i: int| first_of_version(entries, version, i);
        Some(dependencies_of_entry(entries[i].deps))
    } else {
        None
    }
}

/// Convert the [`IndexDep`] entries for the requested `version` into the public
/// [`Dependency`] type.  Returns `None` when the requested version is not found.
pub fn entries_to_dependencies(version: &str, entries: &[IndexEntry]) -> (dependencies: Option<
    Vec<Dependency>,
>)
    ensures
        dependencies.deep_view() == dependencies_of(version@, entries.deep_view()),
{
    let ghost all = entries.deep_view();
    for i in 0..entries.len()
        invariant
            all == entries.deep_view(),
            forall|j: int| 0 <= j < i ==> (#[trigger] all[j]).vers != version@,
    {
        assert(all[i as int] == entries@[i as int].deep_view());
        if same_text(entries[i].vers.as_str(), version) {
            assert(first_of_version(all, version@, i as int));
            return Some(index_deps_to_dependencies(&entries[i].deps));
        }
    }
    None
}

fn index_deps_to_dependencies(deps: &Vec<IndexDep>) -> (dependencies: Vec<Dependency>)
    ensures
        dependencies.deep_view() == dependencies_of_entry(deps.deep_view()),
{
    let mut dependencies: Vec<Dependency> = Vec::new();
    for i in 0..deps.len()
        invariant
            dependencies@.len() == i,
            forall|j: int|
                0 <= j < i ==> (#[trigger] dependencies@[j]).deep_view() == dependencies_of_entry(
                    deps.deep_view(),
                )[j],
    {
        dependencies.push(make_dependency(&deps[i], 0, 0));
    }
    assert(dependencies.deep_view() =~= dependencies_of_entry(deps.deep_view()));
    dependencies
}

// ── What the index does not hold ────────────────────────────────────────────

/// No downloads.
pub open spec fn no_downloads() -> CrateDownloadsView {
    CrateDownloadsView { version_downloads: Seq::empty(), extra_downloads: Seq::empty() }
}

/// No reverse dependencies.
pub open spec fn no_reverse_dependencies() -> ReverseDependenciesView {
    ReverseDependenciesView { dependencies: Seq::empty(), total: 0 }
}

/// Build an empty [`CrateDownloads`] (download stats are not available via the
/// sparse index).
pub fn empty_crate_downloads() -> (downloads: CrateDownloads)
    ensures
        downloads.deep_view() == no_downloads(),
{
    CrateDownloads {
        version_downloads: Vec::new(),
        meta: CrateDownloadsMeta { extra_downloads: Vec::new() },
    }
}

/// Build an empty [`ReverseDependencies`] (reverse-dep data is not available
/// via the sparse index without enumerating the entire index).
pub fn empty_reverse_dependencies() -> (rdeps: ReverseDependencies)
    ensures
        rdeps.deep_view() == no_reverse_dependencies(),
{
    let rdeps = ReverseDependencies { dependencies: Vec::new(), meta: Meta { total: 0 } };
    assert(rdeps.deep_view() =~= no_reverse_dependencies());
    rdeps
}

/// What is said of an operation that the index does not support.
pub open spec fn not_supported_text(operation: Seq<char>) -> Seq<char> {
    "Operation '"@ + operation
        + "' is not available via the sparse registry index. Use get_crate() or crate_dependencies() instead."@
}

/// The error says of the operation, and of nothing else, that the index does
/// not support it.
pub open spec fn says_not_supported(error: Error, operation: Seq<char>) -> bool {
    error matches Error::Api(errors) && errors.deep_view() == seq![
        Some(not_supported_text(operation)),
    ]
}

/// Build an [`Error`] indicating that an operation is not supported by the
/// sparse-index backend.
pub fn not_supported(operation: &str) -> (error: Error)
    ensures
        says_not_supported(error, operation@),
{
    let detail = "Operation '".to_owned().concat(operation).concat(
        "' is not available via the sparse registry index. Use get_crate() or crate_dependencies() instead.",
    );
    let mut errors: Vec<ApiError> = Vec::new();
    errors.push(ApiError { detail: Some(detail) });
    assert(errors.deep_view() =~= seq![Some(not_supported_text(operation@))]);
    Error::Api(ApiErrors { errors })
}

} // verus!
