//! Asking for a crate's file, and what is made of the file once it is there.
use url::ParseError as UrlError;
use vstd::prelude::*;
use vstd::string::*;
use vstd::utf8::is_ascii_chars;

use crate::entry::{IndexEntry, IndexEntryView};
use crate::error::{Error, NotFoundError};
use crate::index::{
    ascii_file_url_of, build_index_url, can_lay_out, file_url_of, index_file_url, name_has_path,
    ordinary_name, parsed_url,
};
use crate::response::{
    dependencies_of, empty_crate_downloads, empty_reverse_dependencies,
    entries_to_crate_response_at, entries_to_dependencies, no_downloads, no_reverse_dependencies,
    response_of, versions_read,
};
use crate::text::copy_optional;
use crate::time::Timestamp;
use crate::types::{
    CrateResponse, CrateResponseView, Dependency, FullCrate, FullCrateView,
    FullVersion, FullVersionView, UserView, Version, VersionLinks, VersionLinksView, VersionView,
};

verus! {

// ── Asking ──────────────────────────────────────────────────────────────────

/// A request for the file of a crate. It stands for the name of the crate, as
/// it was asked for.
#[derive(Debug)]
pub struct IndexRequest {
    crate_name: String,
    file_url: String,
    url: String,
}

impl View for IndexRequest {
    type V = Seq<char>;

    closed spec fn view(&self) -> Seq<char> {
        self.crate_name@
    }
}

impl IndexRequest {
    #[verifier::type_invariant]
    closed spec fn inv(self) -> bool {
        &&& !self.crate_name@.contains('/')
        &&& self.file_url@ == file_url_of(self.crate_name@)
        &&& parsed_url(self.file_url@) matches Ok(normal) && self.url@ == normal
    }

    /// The request for the file of `crate_name`.
    pub fn new(crate_name: &str) -> (request: Result<IndexRequest, Error>)
        requires
            name_has_path(crate_name@),
        ensures
            request_made(request, crate_name@),
    {
        let file_url = index_file_url(crate_name);
        match build_index_url(crate_name) {
            Ok(url) => Ok(IndexRequest { crate_name: crate_name.to_owned(), file_url, url }),
            Err(error) => Err(error),
        }
    }

    /// The request for the file of `crate_name`, or `None` if the name cannot be
    /// laid out as a path.
    pub fn checked(crate_name: &str) -> (request: Option<Result<IndexRequest, Error>>)
        ensures
            match request {
                Some(outcome) => name_has_path(crate_name@) && request_made(outcome, crate_name@),
                None => !name_has_path(crate_name@),
            },
    {
        if crate_name.is_ascii() || can_lay_out(crate_name.to_lowercase().as_str()) {
            Some(IndexRequest::new(crate_name))
        } else {
            None
        }
    }

    /// The name of the crate, as it was asked for.
    pub fn crate_name(&self) -> (name: &str)
        ensures
            name@ == self@,
            !name@.contains('/'),
    {
        proof {
            use_type_invariant(self);
        }
        self.crate_name.as_str()
    }

    /// The URL of the file, as it is put together from the name.
    pub fn file_url(&self) -> (url: &str)
        ensures
            url@ == file_url_of(self@),
    {
        proof {
            use_type_invariant(self);
        }
        self.file_url.as_str()
    }

    /// The URL to send the request to: that of the file, in its normal form.
    pub fn url(&self) -> (url: &str)
        ensures
            parsed_url(file_url_of(self@)) is Ok,
            url@ == normal_file_url(self@),
    {
        proof {
            use_type_invariant(self);
        }
        self.url.as_str()
    }

    /// The error of a file that holds no entry.
    fn not_found(&self) -> (error: Error)
        ensures
            not_found_at(error, file_url_of(self@)),
    {
        Error::NotFound(NotFoundError { url: self.file_url().to_owned() })
    }
}

/// The URL of a crate's file, in its normal form.
pub open spec fn normal_file_url(crate_name: Seq<char>) -> Seq<char> {
    parsed_url(file_url_of(crate_name))->Ok_0
}

/// What comes of asking for the file of a crate: the request, unless the name
/// holds a `/` or the URL cannot be parsed. The URL of an ASCII name is that of
/// the table.
pub open spec fn request_made(
    request: Result<IndexRequest, Error>,
    crate_name: Seq<char>,
) -> bool {
    &&& request matches Ok(made) ==> made@ == crate_name
    &&& if crate_name.contains('/') {
        request matches Err(error) && not_found_at(error, file_url_of(crate_name))
    } else {
        match parsed_url(file_url_of(crate_name)) {
            Ok(normal) => request is Ok,
            Err(error) => request == Err::<IndexRequest, Error>(Error::Url(error)),
        }
    }
    &&& is_ascii_chars(crate_name) ==> file_url_of(crate_name) == ascii_file_url_of(crate_name)
    &&& ordinary_name(crate_name) ==> request is Ok && parsed_url(file_url_of(crate_name)) == Ok::<
        Seq<char>,
        UrlError,
    >(ascii_file_url_of(crate_name))
}

/// The error says that nothing was found at the place.
pub open spec fn not_found_at(error: Error, place: Seq<char>) -> bool {
    error matches Error::NotFound(inner) && inner.url@ == place
}

/// The meaning of a list of entries.
pub open spec fn views_of(entries: Seq<IndexEntry>) -> Seq<IndexEntryView> {
    Seq::new(entries.len(), |i: int| entries[i].deep_view())
}

// ── A crate ─────────────────────────────────────────────────────────────────

/// What is made of the entries of a crate's file: the crate, or an error if
/// there is no entry.
pub open spec fn crate_found(
    found: Result<CrateResponse, Error>,
    crate_name: Seq<char>,
    entries: Seq<IndexEntryView>,
    now: Timestamp,
) -> bool {
    if entries.len() == 0 {
        found matches Err(error) && not_found_at(error, file_url_of(crate_name))
    } else {
        found matches Ok(response) && response.deep_view() == response_of(
            crate_name,
            entries,
            now,
        ) && versions_read(entries)
    }
}

/// What is made of the entries of a crate's file.
pub fn find_crate(request: &IndexRequest, entries: &[IndexEntry], now: Timestamp) -> (found: Result<
    CrateResponse,
    Error,
>)
    ensures
        crate_found(found, request@, entries.deep_view(), now),
{
    if entries.len() == 0 {
        Err(request.not_found())
    } else {
        Ok(entries_to_crate_response_at(request.crate_name(), entries, now))
    }
}

/// What is made of the entries of a crate's file when the dependencies of a
/// version are asked for: the dependencies, or an error that names `place` if
/// there is no such version.
pub open spec fn dependencies_found(
    found: Result<Vec<Dependency>, Error>,
    place: Seq<char>,
    version: Seq<char>,
    entries: Seq<IndexEntryView>,
) -> bool {
    match dependencies_of(version, entries) {
        Some(dependencies) => found matches Ok(list) && list.deep_view() == dependencies,
        None => found matches Err(error) && not_found_at(error, place),
    }
}

/// What is made of the entries of a crate's file when the dependencies of a
/// version are asked for.
pub fn find_dependencies(place: String, version: &str, entries: &[IndexEntry]) -> (found: Result<
    Vec<Dependency>,
    Error,
>)
    ensures
        dependencies_found(found, place@, version@, entries.deep_view()),
{
    match entries_to_dependencies(version, entries) {
        Some(dependencies) => Ok(dependencies),
        None => Err(Error::NotFound(NotFoundError { url: place })),
    }
}

// ── Everything about a crate ────────────────────────────────────────────────

/// The versions that are described in full: all, or only the latest, which is
/// the last.
pub open spec fn chosen_versions(versions: Seq<VersionView>, all_versions: bool) -> Seq<
    VersionView,
> {
    if all_versions || versions.len() == 0 {
        versions
    } else {
        seq![versions.last()]
    }
}

/// A version with its dependencies; authors are not in the index.
pub open spec fn full_version_of(
    version: VersionView,
    entries: Seq<IndexEntryView>,
) -> FullVersionView {
    FullVersionView {
        created_at: version.created_at,
        updated_at: version.updated_at,
        dl_path: version.dl_path,
        downloads: version.downloads,
        features: version.features,
        id: version.id,
        num: version.num,
        yanked: version.yanked,
        license: version.license,
        readme_path: version.readme_path,
        links: VersionLinksView { authors: Seq::empty(), ..version.links },
        author_names: Seq::empty(),
        dependencies: match dependencies_of(version.num, entries) {
            Some(dependencies) => dependencies,
            None => Seq::empty(),
        },
    }
}

/// The license of the latest version.
pub open spec fn latest_license(versions: Seq<FullVersionView>) -> Option<Seq<char>> {
    if versions.len() == 0 {
        None
    } else {
        versions.last().license
    }
}

/// Everything that the index says of a crate, from what it says of the crate
/// and its versions.
pub open spec fn full_crate_of(
    response: CrateResponseView,
    entries: Seq<IndexEntryView>,
    all_versions: bool,
) -> FullCrateView {
    let data = response.crate_data;
    let versions = chosen_versions(response.versions, all_versions).map_values(
        |version: VersionView| full_version_of(version, entries),
    );
    FullCrateView {
        id: data.id,
        name: data.name,
        description: data.description,
        license: latest_license(versions),
        documentation: data.documentation,
        homepage: data.homepage,
        repository: data.repository,
        total_downloads: data.downloads,
        max_version: data.max_version,
        max_stable_version: data.max_stable_version,
        created_at: data.created_at,
        updated_at: data.updated_at,
        categories: response.categories,
        keywords: response.keywords,
        downloads: no_downloads(),
        owners: Seq::empty(),
        reverse_dependencies: no_reverse_dependencies(),
        versions,
    }
}

fn full_version(version: &Version, entries: &[IndexEntry]) -> (full: FullVersion)
    ensures
        full.deep_view() == full_version_of(version.deep_view(), entries.deep_view()),
{
    let dependencies = match entries_to_dependencies(version.num.as_str(), entries) {
        Some(dependencies) => dependencies,
        None => Vec::new(),
    };
    let full = FullVersion {
        created_at: version.created_at,
        updated_at: version.updated_at,
        dl_path: version.dl_path.clone(),
        downloads: version.downloads,
        features: version.features.clone(),
        id: version.id,
        num: version.num.clone(),
        yanked: version.yanked,
        license: copy_optional(&version.license),
        readme_path: copy_optional(&version.readme_path),
        links: VersionLinks {
            authors: String::new(),
            dependencies: version.links.dependencies.clone(),
            version_downloads: version.links.version_downloads.clone(),
        },
        author_names: Vec::new(),
        dependencies,
    };
    assert(full.deep_view() =~= full_version_of(version.deep_view(), entries.deep_view()));
    full
}

/// Everything that the index says of a crate, from what it says of the crate
/// and its versions.
pub fn assemble_full_crate(
    response: CrateResponse,
    entries: &[IndexEntry],
    all_versions: bool,
) -> (full: FullCrate)
    ensures
        full.deep_view() == full_crate_of(
            response.deep_view(),
            entries.deep_view(),
            all_versions,
        ),
{
    let ghost view = response.deep_view();
    let ghost chosen = chosen_versions(view.versions, all_versions);
    let ghost full_views = chosen.map_values(
        |version: VersionView| full_version_of(version, entries.deep_view()),
    );
    let count = response.versions.len();
    let first: usize = if all_versions || count == 0 {
        0
    } else {
        count - 1
    };
    let mut versions: Vec<FullVersion> = Vec::new();
    for i in first..count
        invariant
            count == response.versions@.len(),
            first <= i,
            view == response.deep_view(),
            chosen == chosen_versions(view.versions, all_versions),
            first == (if all_versions || count == 0 {
                0int
            } else {
                count - 1
            }),
            full_views == chosen.map_values(
                |version: VersionView| full_version_of(version, entries.deep_view()),
            ),
            versions@.len() == i - first,
            forall|j: int|
                0 <= j < versions@.len() ==> (#[trigger] versions@[j]).deep_view() == full_views[j],
    {
        versions.push(full_version(&response.versions[i], entries));
        assert(chosen[i - first] == response.versions@[i as int].deep_view());
    }
    assert(versions.deep_view() =~= full_views);
    let license = if versions.len() == 0 {
        None
    } else {
        copy_optional(&versions[versions.len() - 1].license)
    };
    let data = response.crate_data;
    let full = FullCrate {
        id: data.id,
        name: data.name,
        description: data.description,
        license,
        documentation: data.documentation,
        homepage: data.homepage,
        repository: data.repository,
        total_downloads: data.downloads,
        max_version: data.max_version,
        max_stable_version: data.max_stable_version,
        created_at: data.created_at,
        updated_at: data.updated_at,
        categories: response.categories,
        keywords: response.keywords,
        downloads: empty_crate_downloads(),
        owners: Vec::new(),
        reverse_dependencies: empty_reverse_dependencies(),
        versions,
    };
    assert(full.owners.deep_view() =~= Seq::<UserView>::empty());
    full
}

/// What is made of the entries of a crate's file when everything about the
/// crate is asked for: that, or an error if there is no entry.
pub open spec fn full_crate_found(
    found: Result<FullCrate, Error>,
    crate_name: Seq<char>,
    entries: Seq<IndexEntryView>,
    all_versions: bool,
    now: Timestamp,
) -> bool {
    if entries.len() == 0 {
        found matches Err(error) && not_found_at(error, file_url_of(crate_name))
    } else {
        found matches Ok(full) && full.deep_view() == full_crate_of(
            response_of(crate_name, entries, now),
            entries,
            all_versions,
        ) && versions_read(entries)
    }
}

/// What is made of the entries of a crate's file when everything about the
/// crate is asked for.
pub fn find_full_crate(
    request: &IndexRequest,
    entries: &[IndexEntry],
    all_versions: bool,
    now: Timestamp,
) -> (found: Result<FullCrate, Error>)
    ensures
        full_crate_found(found, request@, entries.deep_view(), all_versions, now),
{
    match find_crate(request, entries, now) {
        Ok(response) => Ok(assemble_full_crate(response, entries, all_versions)),
        Err(error) => Err(error),
    }
}

} // verus!
