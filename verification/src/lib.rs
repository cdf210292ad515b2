//! Crate metadata from the **crates.io sparse registry index**
//! (`https://index.crates.io/`), the files that Cargo itself resolves
//! dependencies from.
//!
//! This library holds the rules: where a crate's file lies, what its lines say
//! of the crate, its versions and its dependencies, which version is the
//! highest, how long a request has to wait, and what a reply means. Sending the
//! requests and decoding the JSON of a single line are left to the caller.
//!
//! | Question                                  | Answer                        |
//! |-------------------------------------------|-------------------------------|
//! | `get_crate`                               | full                          |
//! | `crate_dependencies`                      | full                          |
//! | `full_crate`                              | partial                       |
//! | `crate_downloads`, `crate_owners`, `crate_authors`, `crate_reverse_dependencies` | empty (not in the index) |
//! | `summary`, `crates`, `user`               | [`Error::Api`]                |
//!
//! An exchange goes like this:
//!
//! 1. [`IndexRequest`] says where the file of a crate lies, or why it cannot be
//!    asked for;
//! 2. [`RateLimiter`] says how long the request has to wait;
//! 3. [`classify_status`] says what the reply means, and [`conclude`] what the
//!    request brings;
//! 4. [`SyncClient`] or [`AsyncClient`] makes the answer out of the file.
use vstd::prelude::*;

pub mod answers;
pub mod async_client;
pub mod convert;
pub mod entry;
pub mod error;
pub mod exchange;
pub mod features;
pub mod index;
pub mod laws;
pub mod lookup;
pub mod precedence;
pub mod query;
pub mod response;
pub mod semantic;
pub mod stream;
pub mod sync_client;
pub mod text;
pub mod time;
pub mod types;

pub use crate::async_client::Client as AsyncClient;
pub use crate::entry::{IndexDep, IndexEntry};
pub use crate::error::{Error, JsonDecodeError, NotFoundError, PermissionDeniedError};
pub use crate::exchange::{classify_status, conclude, RateLimiter, Received, Reply};
pub use crate::features::FeatureMap;
pub use crate::lookup::IndexRequest;
pub use crate::query::{CratesQuery, CratesQueryBuilder, Sort};
pub use crate::stream::{CrateStream, PageFetch, StreamPoll};
pub use crate::sync_client::SyncClient;
pub use crate::time::{CalendarDate, Timestamp};
pub use crate::types::{
    ApiError, ApiErrors, Authors, AuthorsMeta, Category, Crate, CrateDownloads, CrateDownloadsMeta,
    CrateLinks, CrateResponse, CratesPage, Dependencies, Dependency, ExtraDownloads, FullCrate,
    FullVersion, Keyword, Meta, Owners, ReverseDependencies, ReverseDependenciesAsReceived,
    ReverseDependency, Summary, User, Version, VersionDownloads, VersionLinks,
};

verus! {

} // verus!
