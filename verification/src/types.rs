//! The data that the registry holds of crates, and its meaning in contracts:
//! the deep view of each type has the same fields with texts as sequences of
//! characters.
use vstd::prelude::*;
use std::collections::HashMap;

use crate::features::FeatureMap;
use crate::text::copy_optional;
use crate::time::{CalendarDate, Timestamp};

verus! {

// ── Errors that the registry reports ────────────────────────────────────────

/// API error list returned by the crates.io web API.
#[derive(Debug, Clone, PartialEq, Eq)]
pub struct ApiErrors {
    /// Individual errors.
    pub errors: Vec<ApiError>,
}

/// A single API error message.
#[derive(Debug, Clone, PartialEq, Eq)]
pub struct ApiError {
    /// Error message detail.
    pub detail: Option<String>,
}

impl DeepView for ApiError {
    type V = Option<Seq<char>>;

    open spec fn deep_view(&self) -> Option<Seq<char>> {
        self.detail.deep_view()
    }
}

impl DeepView for ApiErrors {
    type V = Seq<Option<Seq<char>>>;

    open spec fn deep_view(&self) -> Seq<Option<Seq<char>>> {
        self.errors.deep_view()
    }
}

/// The message of a single API error.
pub open spec fn api_error_text(detail: Option<Seq<char>>) -> Seq<char> {
    match detail {
        Some(text) => text,
        None => "Unknown API Error"@,
    }
}

impl ApiError {
    /// The error's message.
    pub fn to_string(&self) -> (text: String)
        ensures
            text@ == api_error_text(self.deep_view()),
    {
        match &self.detail {
            Some(detail) => detail.clone(),
            None => "Unknown API Error".to_owned(),
        }
    }
}

// ── Crates and versions ─────────────────────────────────────────────────────

/// Pagination metadata.
#[derive(Debug, Clone)]
pub struct Meta {
    /// Total number of results available.
    pub total: u64,
}

/// Links to individual API endpoints for a crate.
#[derive(Debug, Clone)]
pub struct CrateLinks {
    pub owner_team: String,
    pub owner_user: String,
    pub owners: String,
    pub reverse_dependencies: String,
    pub version_downloads: String,
    pub versions: Option<String>,
}

/// The meaning of [`CrateLinks`].
#[verifier::ext_equal]
pub struct CrateLinksView {
    pub owner_team: Seq<char>,
    pub owner_user: Seq<char>,
    pub owners: Seq<char>,
    pub reverse_dependencies: Seq<char>,
    pub version_downloads: Seq<char>,
    pub versions: Option<Seq<char>>,
}

impl DeepView for CrateLinks {
    type V = CrateLinksView;

    open spec fn deep_view(&self) -> CrateLinksView {
        CrateLinksView {
            owner_team: self.owner_team@,
            owner_user: self.owner_user@,
            owners: self.owners@,
            reverse_dependencies: self.reverse_dependencies@,
            version_downloads: self.version_downloads@,
            versions: self.versions.deep_view(),
        }
    }
}

/// A Rust crate in the registry.
#[derive(Debug, Clone)]
pub struct Crate {
    pub id: String,
    pub name: String,
    pub description: Option<String>,
    /// Always empty: the license is only available on a specific [`Version`] of
    /// a crate or on [`FullCrate`].
    pub license: Option<String>,
    pub documentation: Option<String>,
    pub homepage: Option<String>,
    pub repository: Option<String>,
    pub downloads: u64,
    pub recent_downloads: Option<u64>,
    /// Not set if the crate was loaded via a list query.
    pub categories: Option<Vec<String>>,
    /// Not set if the crate was loaded via a list query.
    pub keywords: Option<Vec<String>>,
    pub versions: Option<Vec<u64>>,
    pub max_version: String,
    pub max_stable_version: Option<String>,
    pub links: CrateLinks,
    pub created_at: Timestamp,
    pub updated_at: Timestamp,
    pub exact_match: Option<bool>,
}

/// The meaning of a [`Crate`].
#[verifier::ext_equal]
pub struct CrateView {
    pub id: Seq<char>,
    pub name: Seq<char>,
    pub description: Option<Seq<char>>,
    pub license: Option<Seq<char>>,
    pub documentation: Option<Seq<char>>,
    pub homepage: Option<Seq<char>>,
    pub repository: Option<Seq<char>>,
    pub downloads: u64,
    pub recent_downloads: Option<u64>,
    pub categories: Option<Seq<Seq<char>>>,
    pub keywords: Option<Seq<Seq<char>>>,
    pub versions: Option<Seq<u64>>,
    pub max_version: Seq<char>,
    pub max_stable_version: Option<Seq<char>>,
    pub links: CrateLinksView,
    pub created_at: Timestamp,
    pub updated_at: Timestamp,
    pub exact_match: Option<bool>,
}

impl DeepView for Crate {
    type V = CrateView;

    open spec fn deep_view(&self) -> CrateView {
        CrateView {
            id: self.id@,
            name: self.name@,
            description: self.description.deep_view(),
            license: self.license.deep_view(),
            documentation: self.documentation.deep_view(),
            homepage: self.homepage.deep_view(),
            repository: self.repository.deep_view(),
            downloads: self.downloads,
            recent_downloads: self.recent_downloads,
            categories: self.categories.deep_view(),
            keywords: self.keywords.deep_view(),
            versions: self.versions.deep_view(),
            max_version: self.max_version@,
            max_stable_version: self.max_stable_version.deep_view(),
            links: self.links.deep_view(),
            created_at: self.created_at,
            updated_at: self.updated_at,
            exact_match: self.exact_match,
        }
    }
}

/// A page of crates returned by a list query.
#[derive(Debug, Clone)]
pub struct CratesPage {
    pub crates: Vec<Crate>,
    pub versions: Vec<Version>,
    pub keywords: Vec<Keyword>,
    pub categories: Vec<Category>,
    pub meta: Meta,
}

/// Links to extra data for a crate version.
#[derive(Debug)]
pub struct VersionLinks {
    /// Always empty.
    pub authors: String,
    pub dependencies: String,
    pub version_downloads: String,
}

/// The meaning of [`VersionLinks`].
#[verifier::ext_equal]
pub struct VersionLinksView {
    pub authors: Seq<char>,
    pub dependencies: Seq<char>,
    pub version_downloads: Seq<char>,
}

impl DeepView for VersionLinks {
    type V = VersionLinksView;

    open spec fn deep_view(&self) -> VersionLinksView {
        VersionLinksView {
            authors: self.authors@,
            dependencies: self.dependencies@,
            version_downloads: self.version_downloads@,
        }
    }
}

impl Clone for VersionLinks {
    fn clone(&self) -> (copy: Self)
        ensures
            copy.deep_view() == self.deep_view(),
    {
        VersionLinks {
            authors: self.authors.clone(),
            dependencies: self.dependencies.clone(),
            version_downloads: self.version_downloads.clone(),
        }
    }
}

/// A [`Crate`] version.
#[derive(Debug)]
pub struct Version {
    pub crate_name: String,
    pub created_at: Timestamp,
    pub updated_at: Timestamp,
    pub dl_path: String,
    pub downloads: u64,
    pub features: FeatureMap,
    pub id: u64,
    pub num: String,
    pub yanked: bool,
    pub license: Option<String>,
    pub readme_path: Option<String>,
    pub links: VersionLinks,
    pub crate_size: Option<u64>,
    pub published_by: Option<User>,
}

/// The meaning of a [`Version`].
#[verifier::ext_equal]
pub struct VersionView {
    pub crate_name: Seq<char>,
    pub created_at: Timestamp,
    pub updated_at: Timestamp,
    pub dl_path: Seq<char>,
    pub downloads: u64,
    pub features: Map<Seq<char>, Seq<Seq<char>>>,
    pub id: u64,
    pub num: Seq<char>,
    pub yanked: bool,
    pub license: Option<Seq<char>>,
    pub readme_path: Option<Seq<char>>,
    pub links: VersionLinksView,
    pub crate_size: Option<u64>,
    pub published_by: Option<UserView>,
}

impl DeepView for Version {
    type V = VersionView;

    open spec fn deep_view(&self) -> VersionView {
        VersionView {
            crate_name: self.crate_name@,
            created_at: self.created_at,
            updated_at: self.updated_at,
            dl_path: self.dl_path@,
            downloads: self.downloads,
            features: self.features@,
            id: self.id,
            num: self.num@,
            yanked: self.yanked,
            license: self.license.deep_view(),
            readme_path: self.readme_path.deep_view(),
            links: self.links.deep_view(),
            crate_size: self.crate_size,
            published_by: self.published_by.deep_view(),
        }
    }
}

impl Clone for Version {
    fn clone(&self) -> (copy: Self)
        ensures
            copy.deep_view() == self.deep_view(),
    {
        let published_by = match &self.published_by {
            Some(user) => Some(user.clone()),
            None => None,
        };
        Version {
            crate_name: self.crate_name.clone(),
            created_at: self.created_at,
            updated_at: self.updated_at,
            dl_path: self.dl_path.clone(),
            downloads: self.downloads,
            features: self.features.clone(),
            id: self.id,
            num: self.num.clone(),
            yanked: self.yanked,
            license: copy_optional(&self.license),
            readme_path: copy_optional(&self.readme_path),
            links: self.links.clone(),
            crate_size: self.crate_size,
            published_by,
        }
    }
}

/// A crate category.
#[derive(Debug, Clone)]
pub struct Category {
    pub category: String,
    pub crates_cnt: u64,
    pub created_at: Timestamp,
    pub description: String,
    pub id: String,
    pub slug: String,
}

/// A keyword available on crates.io.
#[derive(Debug, Clone)]
pub struct Keyword {
    pub id: String,
    pub keyword: String,
    pub crates_cnt: u64,
    pub created_at: Timestamp,
}

/// Full data for a crate (single-crate lookup response).
#[derive(Debug, Clone)]
pub struct CrateResponse {
    pub categories: Vec<Category>,
    pub crate_data: Crate,
    pub keywords: Vec<Keyword>,
    pub versions: Vec<Version>,
}

/// The meaning of a [`CrateResponse`].
#[verifier::ext_equal]
pub struct CrateResponseView {
    pub categories: Seq<Category>,
    pub crate_data: CrateView,
    pub keywords: Seq<Keyword>,
    pub versions: Seq<VersionView>,
}

impl DeepView for CrateResponse {
    type V = CrateResponseView;

    open spec fn deep_view(&self) -> CrateResponseView {
        CrateResponseView {
            categories: self.categories@,
            crate_data: self.crate_data.deep_view(),
            keywords: self.keywords@,
            versions: self.versions.deep_view(),
        }
    }
}

/// Summary for crates.io.
#[derive(Debug, Clone)]
pub struct Summary {
    pub just_updated: Vec<Crate>,
    pub most_downloaded: Vec<Crate>,
    pub new_crates: Vec<Crate>,
    pub most_recently_downloaded: Vec<Crate>,
    pub num_crates: u64,
    pub num_downloads: u64,
    pub popular_categories: Vec<Category>,
    pub popular_keywords: Vec<Keyword>,
}

// ── Downloads ───────────────────────────────────────────────────────────────

/// Download data for a single crate version on a given date.
#[derive(Debug, Clone)]
pub struct VersionDownloads {
    pub date: CalendarDate,
    pub downloads: u64,
    pub version: u64,
}

/// Extra download data not attributed to a specific version date.
#[derive(Debug, Clone)]
pub struct ExtraDownloads {
    pub date: CalendarDate,
    pub downloads: u64,
}

/// Metadata about extra downloads.
#[derive(Debug, Clone)]
pub struct CrateDownloadsMeta {
    pub extra_downloads: Vec<ExtraDownloads>,
}

/// Download data for all versions of a [`Crate`].
#[derive(Debug, Clone)]
pub struct CrateDownloads {
    pub version_downloads: Vec<VersionDownloads>,
    pub meta: CrateDownloadsMeta,
}

/// The meaning of [`CrateDownloads`].
#[verifier::ext_equal]
pub struct CrateDownloadsView {
    pub version_downloads: Seq<VersionDownloads>,
    pub extra_downloads: Seq<ExtraDownloads>,
}

impl DeepView for CrateDownloads {
    type V = CrateDownloadsView;

    open spec fn deep_view(&self) -> CrateDownloadsView {
        CrateDownloadsView {
            version_downloads: self.version_downloads@,
            extra_downloads: self.meta.extra_downloads@,
        }
    }
}

// ── People ──────────────────────────────────────────────────────────────────

/// A crates.io user.
#[derive(Debug)]
pub struct User {
    pub avatar: Option<String>,
    pub email: Option<String>,
    pub id: u64,
    pub kind: Option<String>,
    pub login: String,
    pub name: Option<String>,
    pub url: String,
}

/// The meaning of a [`User`].
#[verifier::ext_equal]
pub struct UserView {
    pub avatar: Option<Seq<char>>,
    pub email: Option<Seq<char>>,
    pub id: u64,
    pub kind: Option<Seq<char>>,
    pub login: Seq<char>,
    pub name: Option<Seq<char>>,
    pub url: Seq<char>,
}

impl DeepView for User {
    type V = UserView;

    open spec fn deep_view(&self) -> UserView {
        UserView {
            avatar: self.avatar.deep_view(),
            email: self.email.deep_view(),
            id: self.id,
            kind: self.kind.deep_view(),
            login: self.login@,
            name: self.name.deep_view(),
            url: self.url@,
        }
    }
}

impl Clone for User {
    fn clone(&self) -> (copy: Self)
        ensures
            copy.deep_view() == self.deep_view(),
    {
        User {
            avatar: copy_optional(&self.avatar),
            email: copy_optional(&self.email),
            id: self.id,
            kind: copy_optional(&self.kind),
            login: self.login.clone(),
            name: copy_optional(&self.name),
            url: self.url.clone(),
        }
    }
}

/// Author names metadata.
#[derive(Debug, Clone)]
pub struct AuthorsMeta {
    pub names: Vec<String>,
}

/// Crate author names.
pub struct Authors {
    /// List of author names.
    pub names: Vec<String>,
}

/// Crate owners.
#[derive(Debug, Clone)]
pub struct Owners {
    pub users: Vec<User>,
}

// ── Dependencies ────────────────────────────────────────────────────────────

/// A crate dependency.
#[derive(Debug)]
pub struct Dependency {
    pub crate_id: String,
    pub default_features: bool,
    pub downloads: u64,
    pub features: Vec<String>,
    pub id: u64,
    pub kind: String,
    pub optional: bool,
    pub req: String,
    pub target: Option<String>,
    pub version_id: u64,
}

/// The meaning of a [`Dependency`].
#[verifier::ext_equal]
pub struct DependencyView {
    pub crate_id: Seq<char>,
    pub default_features: bool,
    pub downloads: u64,
    pub features: Seq<Seq<char>>,
    pub id: u64,
    pub kind: Seq<char>,
    pub optional: bool,
    pub req: Seq<char>,
    pub target: Option<Seq<char>>,
    pub version_id: u64,
}

impl DeepView for Dependency {
    type V = DependencyView;

    open spec fn deep_view(&self) -> DependencyView {
        DependencyView {
            crate_id: self.crate_id@,
            default_features: self.default_features,
            downloads: self.downloads,
            features: self.features.deep_view(),
            id: self.id,
            kind: self.kind@,
            optional: self.optional,
            req: self.req@,
            target: self.target.deep_view(),
            version_id: self.version_id,
        }
    }
}

impl Clone for Dependency {
    fn clone(&self) -> (copy: Self)
        ensures
            copy.deep_view() == self.deep_view(),
    {
        Dependency {
            crate_id: self.crate_id.clone(),
            default_features: self.default_features,
            downloads: self.downloads,
            features: crate::text::copy_texts(&self.features),
            id: self.id,
            kind: self.kind.clone(),
            optional: self.optional,
            req: self.req.clone(),
            target: copy_optional(&self.target),
            version_id: self.version_id,
        }
    }
}

/// List of dependencies of a crate version.
#[derive(Debug, Clone)]
pub struct Dependencies {
    pub dependencies: Vec<Dependency>,
}

/// A single reverse dependency (i.e. a dependent crate).
#[derive(Debug, Clone)]
pub struct ReverseDependency {
    pub crate_version: Version,
    pub dependency: Dependency,
}

/// The meaning of a [`ReverseDependency`].
#[verifier::ext_equal]
pub struct ReverseDependencyView {
    pub crate_version: VersionView,
    pub dependency: DependencyView,
}

impl DeepView for ReverseDependency {
    type V = ReverseDependencyView;

    open spec fn deep_view(&self) -> ReverseDependencyView {
        ReverseDependencyView {
            crate_version: self.crate_version.deep_view(),
            dependency: self.dependency.deep_view(),
        }
    }
}

/// A page of reverse dependencies as the registry sends it: the dependencies,
/// and apart from them the versions that they belong to.
#[derive(Debug, Clone)]
pub struct ReverseDependenciesAsReceived {
    pub dependencies: Vec<Dependency>,
    pub versions: Vec<Version>,
    pub meta: Meta,
}

/// Full list of reverse dependencies for a crate.
#[derive(Debug, Clone)]
pub struct ReverseDependencies {
    pub dependencies: Vec<ReverseDependency>,
    pub meta: Meta,
}

/// The meaning of [`ReverseDependencies`].
#[verifier::ext_equal]
pub struct ReverseDependenciesView {
    pub dependencies: Seq<ReverseDependencyView>,
    pub total: u64,
}

impl DeepView for ReverseDependencies {
    type V = ReverseDependenciesView;

    open spec fn deep_view(&self) -> ReverseDependenciesView {
        ReverseDependenciesView {
            dependencies: self.dependencies.deep_view(),
            total: self.meta.total,
        }
    }
}

/// The version that bears the number `id`; the last one, where several do.
pub open spec fn version_numbered(versions: Seq<VersionView>, id: u64) -> Option<VersionView>
    decreases versions.len(),
{
    if versions.len() == 0 {
        None
    } else if versions.last().id == id {
        Some(versions.last())
    } else {
        version_numbered(versions.drop_last(), id)
    }
}

/// Each dependency with the version that it belongs to, in the order of the
/// dependencies; one whose version is not there is left out.
pub open spec fn paired(
    dependencies: Seq<DependencyView>,
    versions: Seq<VersionView>,
) -> Seq<ReverseDependencyView>
    decreases dependencies.len(),
{
    if dependencies.len() == 0 {
        Seq::empty()
    } else {
        let before = paired(dependencies.drop_last(), versions);
        match version_numbered(versions, dependencies.last().version_id) {
            Some(version) => before.push(
                ReverseDependencyView { crate_version: version, dependency: dependencies.last() },
            ),
            None => before,
        }
    }
}

impl ReverseDependencies {
    /// Add a page: its dependencies, each with its version, behind those that
    /// are there, and its total in place of the one that was there.
    pub fn extend(&mut self, rdeps: ReverseDependenciesAsReceived)
        ensures
            final(self).deep_view() == (ReverseDependenciesView {
                dependencies: old(self).deep_view().dependencies + paired(
                    rdeps.dependencies.deep_view(),
                    rdeps.versions.deep_view(),
                ),
                total: rdeps.meta.total,
            }),
    {
        broadcast use vstd::std_specs::hash::group_hash_axioms;

        self.meta.total = rdeps.meta.total;
        let ghost versions = rdeps.versions.deep_view();
        let ghost dependencies = rdeps.dependencies.deep_view();
        let ghost before = self.dependencies.deep_view();
        let mut version_map: HashMap<u64, usize> = HashMap::new();
        for i in 0..rdeps.versions.len()
            invariant
                versions == rdeps.versions.deep_view(),
                forall|id: u64| #[trigger]
                    version_map@.contains_key(id) == (version_numbered(
                        versions.take(i as int),
                        id,
                    ) is Some),
                forall|id: u64| #[trigger]
                    version_map@.contains_key(id) ==> version_map@[id] < i && version_numbered(
                        versions.take(i as int),
                        id,
                    ) == Some(versions[version_map@[id] as int]),
        {
            version_map.insert(rdeps.versions[i].id, i);
            assert(versions.take(i + 1).drop_last() =~= versions.take(i as int));
            assert(versions.take(i + 1).last() == rdeps.versions@[i as int].deep_view());
        }
        assert(versions.take(versions.len() as int) =~= versions);
        for i in 0..rdeps.dependencies.len()
            invariant
                versions == rdeps.versions.deep_view(),
                dependencies == rdeps.dependencies.deep_view(),
                self.meta.total == rdeps.meta.total,
                forall|id: u64| #[trigger]
                    version_map@.contains_key(id) == (version_numbered(versions, id) is Some),
                forall|id: u64| #[trigger]
                    version_map@.contains_key(id) ==> version_map@[id] < versions.len()
                        && version_numbered(versions, id) == Some(
                        versions[version_map@[id] as int],
                    ),
                self.dependencies.deep_view() == before + paired(
                    dependencies.take(i as int),
                    versions,
                ),
        {
            let d = &rdeps.dependencies[i];
            let ghost so_far = self.dependencies.deep_view();
            assert(dependencies.take(i + 1).drop_last() =~= dependencies.take(i as int));
            assert(dependencies.take(i + 1).last() == d.deep_view());
            match version_map.get(&d.version_id) {
                Some(place) => {
                    let v = &rdeps.versions[*place];
                    let found = ReverseDependency { crate_version: v.clone(), dependency: d.clone() };
                    let ghost pair = found.deep_view();
                    self.dependencies.push(found);
                    assert(self.dependencies.deep_view() =~= so_far.push(pair));
                    assert(pair.crate_version == versions[*place as int]);
                },
                None => {},
            }
            assert(self.dependencies.deep_view() =~= before + paired(
                dependencies.take(i + 1),
                versions,
            ));
        }
        assert(dependencies.take(dependencies.len() as int) =~= dependencies);
    }
}

// ── Everything about a crate ────────────────────────────────────────────────

/// Complete information for a crate version (including authors and dependencies).
#[derive(Debug, Clone)]
pub struct FullVersion {
    pub created_at: Timestamp,
    pub updated_at: Timestamp,
    pub dl_path: String,
    pub downloads: u64,
    pub features: FeatureMap,
    pub id: u64,
    pub num: String,
    pub yanked: bool,
    pub license: Option<String>,
    pub readme_path: Option<String>,
    pub links: VersionLinks,
    pub author_names: Vec<String>,
    pub dependencies: Vec<Dependency>,
}

/// The meaning of a [`FullVersion`].
#[verifier::ext_equal]
pub struct FullVersionView {
    pub created_at: Timestamp,
    pub updated_at: Timestamp,
    pub dl_path: Seq<char>,
    pub downloads: u64,
    pub features: Map<Seq<char>, Seq<Seq<char>>>,
    pub id: u64,
    pub num: Seq<char>,
    pub yanked: bool,
    pub license: Option<Seq<char>>,
    pub readme_path: Option<Seq<char>>,
    pub links: VersionLinksView,
    pub author_names: Seq<Seq<char>>,
    pub dependencies: Seq<DependencyView>,
}

impl DeepView for FullVersion {
    type V = FullVersionView;

    open spec fn deep_view(&self) -> FullVersionView {
        FullVersionView {
            created_at: self.created_at,
            updated_at: self.updated_at,
            dl_path: self.dl_path@,
            downloads: self.downloads,
            features: self.features@,
            id: self.id,
            num: self.num@,
            yanked: self.yanked,
            license: self.license.deep_view(),
            readme_path: self.readme_path.deep_view(),
            links: self.links.deep_view(),
            author_names: self.author_names.deep_view(),
            dependencies: self.dependencies.deep_view(),
        }
    }
}

/// Complete information for a crate.
#[derive(Debug, Clone)]
pub struct FullCrate {
    pub id: String,
    pub name: String,
    pub description: Option<String>,
    pub license: Option<String>,
    pub documentation: Option<String>,
    pub homepage: Option<String>,
    pub repository: Option<String>,
    pub total_downloads: u64,
    pub max_version: String,
    pub max_stable_version: Option<String>,
    pub created_at: Timestamp,
    pub updated_at: Timestamp,
    pub categories: Vec<Category>,
    pub keywords: Vec<Keyword>,
    pub downloads: CrateDownloads,
    pub owners: Vec<User>,
    pub reverse_dependencies: ReverseDependencies,
    pub versions: Vec<FullVersion>,
}

/// The meaning of a [`FullCrate`].
#[verifier::ext_equal]
pub struct FullCrateView {
    pub id: Seq<char>,
    pub name: Seq<char>,
    pub description: Option<Seq<char>>,
    pub license: Option<Seq<char>>,
    pub documentation: Option<Seq<char>>,
    pub homepage: Option<Seq<char>>,
    pub repository: Option<Seq<char>>,
    pub total_downloads: u64,
    pub max_version: Seq<char>,
    pub max_stable_version: Option<Seq<char>>,
    pub created_at: Timestamp,
    pub updated_at: Timestamp,
    pub categories: Seq<Category>,
    pub keywords: Seq<Keyword>,
    pub downloads: CrateDownloadsView,
    pub owners: Seq<UserView>,
    pub reverse_dependencies: ReverseDependenciesView,
    pub versions: Seq<FullVersionView>,
}

impl DeepView for FullCrate {
    type V = FullCrateView;

    open spec fn deep_view(&self) -> FullCrateView {
        FullCrateView {
            id: self.id@,
            name: self.name@,
            description: self.description.deep_view(),
            license: self.license.deep_view(),
            documentation: self.documentation.deep_view(),
            homepage: self.homepage.deep_view(),
            repository: self.repository.deep_view(),
            total_downloads: self.total_downloads,
            max_version: self.max_version@,
            max_stable_version: self.max_stable_version.deep_view(),
            created_at: self.created_at,
            updated_at: self.updated_at,
            categories: self.categories@,
            keywords: self.keywords@,
            downloads: self.downloads.deep_view(),
            owners: self.owners.deep_view(),
            reverse_dependencies: self.reverse_dependencies.deep_view(),
            versions: self.versions.deep_view(),
        }
    }
}

} // verus!
