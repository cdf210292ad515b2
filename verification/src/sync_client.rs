//! Synchronous client backed by the crates.io sparse registry index.
use reqwest::header::InvalidHeaderValue;
use vstd::prelude::*;
use vstd::string::*;
use vstd::utf8::encode_utf8;

use crate::entry::{decoded_from, parse_index_entries, IndexEntry};
use crate::error::Error;
use crate::exchange::{header_text, header_value, RateLimiter, RateLimiterView};
use crate::lookup::{
    crate_found, dependencies_found, find_crate, find_dependencies, find_full_crate,
    full_crate_found, normal_file_url, views_of, IndexRequest,
};
use crate::query::CratesQuery;
use crate::response::{
    empty_crate_downloads, empty_reverse_dependencies, no_downloads, no_reverse_dependencies,
    not_supported, says_not_supported,
};
use crate::time::{clock_reading, utc_now, Timestamp};
use crate::types::{
    Authors, CrateDownloads, CrateResponse, CratesPage, Dependency, FullCrate,
    ReverseDependencies, Summary, User,
};

verus! {

/// A synchronous client for the crates.io sparse registry index, without the
/// connection: what it asks for is sent elsewhere, and the replies are brought
/// to it.
///
/// | Method                           | Availability                              |
/// |----------------------------------|-------------------------------------------|
/// | [`get_crate`](Self::get_crate)   | full                                      |
/// | [`crate_dependencies`](Self::crate_dependencies) | full                      |
/// | [`full_crate`](Self::full_crate) | partial (no downloads, owners, rev-deps)  |
/// | [`crate_downloads`](Self::crate_downloads) | empty (not in the index)        |
/// | [`crate_owners`](Self::crate_owners) | empty (not in the index)              |
/// | [`crate_authors`](Self::crate_authors) | empty (not in the index)            |
/// | [`crate_reverse_dependencies`](Self::crate_reverse_dependencies) | empty (not in the index) |
/// | [`summary`](Self::summary), [`crates`](Self::crates), [`user`](Self::user) | unsupported: [`Error::Api`] |
#[derive(Debug)]
pub struct SyncClient {
    user_agent: Vec<u8>,
    rate_limit: u128,
}

/// What a [`SyncClient`] was made with.
pub struct SyncClientView {
    /// The value of the user agent header.
    pub user_agent: Seq<u8>,
    /// The least time from one request to the next, in nanoseconds.
    pub rate_limit: u128,
}

impl View for SyncClient {
    type V = SyncClientView;

    closed spec fn view(&self) -> SyncClientView {
        SyncClientView { user_agent: self.user_agent@, rate_limit: self.rate_limit }
    }
}

impl SyncClient {
    /// Instantiate a new client.
    ///
    /// Returns an error if the given user agent string is not a valid HTTP
    /// header value.
    ///
    /// `rate_limit` is the minimum interval between successive HTTP requests,
    /// in nanoseconds.  At most one request is issued per `rate_limit`.
    /// Pass `0` to disable throttling.
    pub fn new(user_agent: &str, rate_limit: u128) -> (client: Result<Self, InvalidHeaderValue>)
        ensures
            client is Ok == header_text(user_agent@),
            client matches Ok(made) ==> made@ == (SyncClientView {
                user_agent: encode_utf8(user_agent@),
                rate_limit,
            }),
    {
        match header_value(user_agent) {
            Ok(value) => Ok(SyncClient { user_agent: value, rate_limit }),
            Err(error) => Err(error),
        }
    }

    /// The value of the user agent header.
    pub fn user_agent(&self) -> (value: &Vec<u8>)
        ensures
            value@ == self@.user_agent,
    {
        &self.user_agent
    }

    /// What keeps the client's requests apart.
    pub fn rate_limiter(&self) -> (limiter: RateLimiter)
        ensures
            limiter@ == (RateLimiterView { rate_limit: self@.rate_limit, last: None }),
    {
        RateLimiter::new(self.rate_limit)
    }

    /// Retrieve information about a crate: what the body of the reply to
    /// `request` says of it. `decode` decodes a single line.
    ///
    /// Returns [`Error::NotFound`] when the crate does not exist in the index.
    pub fn get_crate<F: Fn(&str) -> Option<IndexEntry>>(
        &self,
        request: &IndexRequest,
        body: &str,
        decode: &F,
    ) -> (found: Result<CrateResponse, Error>)
        requires
            forall|line: &str| call_requires(*decode, (line,)),
        ensures
            exists|entries: Seq<IndexEntry>, now: Timestamp| #[trigger]
                decoded_from(entries, *decode, body@) && #[trigger] clock_reading(now)
                    && crate_found(found, request@, views_of(entries), now),
    {
        let entries = parse_index_entries(body, decode);
        let now = utc_now();
        let found = find_crate(request, entries.as_slice(), now);
        assert(views_of(entries@) =~= entries.deep_view());
        found
    }

    /// Retrieve the dependencies of a specific crate version: what the body of
    /// the reply to `request` says of them. `decode` decodes a single line.
    ///
    /// Returns [`Error::NotFound`], with the URL of the request, when the file
    /// holds no such version.
    pub fn crate_dependencies<F: Fn(&str) -> Option<IndexEntry>>(
        &self,
        request: &IndexRequest,
        version: &str,
        body: &str,
        decode: &F,
    ) -> (found: Result<Vec<Dependency>, Error>)
        requires
            forall|line: &str| call_requires(*decode, (line,)),
        ensures
            exists|entries: Seq<IndexEntry>| #[trigger]
                decoded_from(entries, *decode, body@) && dependencies_found(
                    found,
                    normal_file_url(request@),
                    version@,
                    views_of(entries),
                ),
    {
        let entries = parse_index_entries(body, decode);
        let found = find_dependencies(request.url().to_owned(), version, entries.as_slice());
        assert(views_of(entries@) =~= entries.deep_view());
        found
    }

    /// Retrieve download statistics for a crate.
    ///
    /// Download statistics are not available via the sparse registry index:
    /// always empty.
    pub fn crate_downloads(&self, _crate_name: &str) -> (downloads: Result<CrateDownloads, Error>)
        ensures
            downloads matches Ok(data) && data.deep_view() == no_downloads(),
    {
        Ok(empty_crate_downloads())
    }

    /// Retrieve the owners of a crate.
    ///
    /// Owner information is not available via the sparse registry index: always
    /// empty.
    pub fn crate_owners(&self, _crate_name: &str) -> (owners: Result<Vec<User>, Error>)
        ensures
            owners matches Ok(users) && users@ == Seq::<User>::empty(),
    {
        Ok(Vec::new())
    }

    /// Get a single page of reverse dependencies.
    ///
    /// Reverse dependency data is not available via the sparse registry index:
    /// always an empty page.
    pub fn crate_reverse_dependencies_page(&self, _crate_name: &str, _page: u64) -> (rdeps: Result<
        ReverseDependencies,
        Error,
    >)
        ensures
            rdeps matches Ok(data) && data.deep_view() == no_reverse_dependencies(),
    {
        Ok(empty_reverse_dependencies())
    }

    /// Load all reverse dependencies of a crate.
    ///
    /// Reverse dependency data is not available via the sparse registry index:
    /// always empty.
    pub fn crate_reverse_dependencies(&self, _crate_name: &str) -> (rdeps: Result<
        ReverseDependencies,
        Error,
    >)
        ensures
            rdeps matches Ok(data) && data.deep_view() == no_reverse_dependencies(),
    {
        Ok(empty_reverse_dependencies())
    }

    /// Get the total count of reverse dependencies.
    ///
    /// Reverse dependency data is not available via the sparse registry index:
    /// always `0`.
    pub fn crate_reverse_dependency_count(&self, _crate_name: &str) -> (count: Result<u64, Error>)
        ensures
            count == Ok::<u64, Error>(0),
    {
        Ok(0)
    }

    /// Retrieve the authors for a crate version.
    ///
    /// Author information is not available via the sparse registry index: always
    /// empty.
    pub fn crate_authors(&self, _crate_name: &str, _version: &str) -> (authors: Result<
        Authors,
        Error,
    >)
        ensures
            authors matches Ok(data) && data.names@ == Seq::<String>::empty(),
    {
        Ok(Authors { names: Vec::new() })
    }

    /// Retrieve all available information for a crate: what the body of the
    /// reply to `request` says of it. `decode` decodes a single line.
    ///
    /// Fields not available in the sparse index (downloads, owners, authors,
    /// reverse dependencies) are returned as empty / zero. The `all_versions`
    /// flag controls whether every version is described in full; when `false`,
    /// only the latest version is.
    pub fn full_crate<F: Fn(&str) -> Option<IndexEntry>>(
        &self,
        request: &IndexRequest,
        body: &str,
        decode: &F,
        all_versions: bool,
    ) -> (found: Result<FullCrate, Error>)
        requires
            forall|line: &str| call_requires(*decode, (line,)),
        ensures
            exists|entries: Seq<IndexEntry>, now: Timestamp| #[trigger]
                decoded_from(entries, *decode, body@) && #[trigger] clock_reading(now)
                    && full_crate_found(found, request@, views_of(entries), all_versions, now),
    {
        let entries = parse_index_entries(body, decode);
        let now = utc_now();
        let found = find_full_crate(request, entries.as_slice(), all_versions, now);
        assert(views_of(entries@) =~= entries.deep_view());
        found
    }

    /// Retrieve a page of crates.
    ///
    /// Crate enumeration is not available via the sparse registry index: always
    /// [`Error::Api`].
    pub fn crates(&self, _query: CratesQuery) -> (page: Result<CratesPage, Error>)
        ensures
            page matches Err(error) && says_not_supported(error, "crates"@),
    {
        Err(not_supported("crates"))
    }

    /// Retrieve a summary containing crates.io-wide statistics.
    ///
    /// Summary statistics are not available via the sparse registry index:
    /// always [`Error::Api`].
    pub fn summary(&self) -> (summary: Result<Summary, Error>)
        ensures
            summary matches Err(error) && says_not_supported(error, "summary"@),
    {
        Err(not_supported("summary"))
    }

    /// Retrieve a user by username.
    ///
    /// User data is not available via the sparse registry index: always
    /// [`Error::Api`].
    pub fn user(&self, _username: &str) -> (user: Result<User, Error>)
        ensures
            user matches Err(error) && says_not_supported(error, "user"@),
    {
        Err(not_supported("user"))
    }
}

} // verus!
