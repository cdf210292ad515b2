use crates_io_api::{
    classify_status, conclude, AsyncClient, Crate, CrateLinks, CratesPage, CratesQuery, Error, Meta,
    NotFoundError, PageFetch, RateLimiter, Received, Reply, StreamPoll, SyncClient, Timestamp,
};

fn sync_client() -> SyncClient {
    SyncClient::new("crates-io-api-test (github.com/LuuuXXX/crates-io-api)", 500_000_000).unwrap()
}

fn async_client() -> AsyncClient {
    AsyncClient::new("crates-io-api-test (github.com/LuuuXXX/crates-io-api)", 500_000_000).unwrap()
}

fn http_error() -> reqwest::Error {
    reqwest::Client::new().get("no url").build().unwrap_err()
}

fn says(error: Error, expected: &str) {
    match error {
        Error::Api(errors) => {
            assert_eq!(errors.errors.len(), 1);
            assert_eq!(errors.errors[0].detail, Some(expected.to_string()));
        }
        _ => panic!("the operation is not supported"),
    }
}

// ── The blocking client ─────────────────────────────────────────────────────

/// SyncClient must be Send so it can be used across threads.
#[test]
fn sync_client_is_send() {
    let client = sync_client();
    let _: &dyn Send = &client;
}

#[test]
fn sync_client_new_rejects_invalid_user_agent() {
    // A header value containing a newline is always invalid.
    let result = SyncClient::new("bad\nagent", 0);
    assert!(result.is_err());
}

#[test]
fn sync_client_crate_downloads_returns_empty() {
    let client = sync_client();
    let dl = client.crate_downloads("serde").unwrap();
    assert!(dl.version_downloads.is_empty());
    assert!(dl.meta.extra_downloads.is_empty());
}

#[test]
fn sync_client_crate_owners_returns_empty() {
    let client = sync_client();
    let owners = client.crate_owners("serde").unwrap();
    assert!(owners.is_empty());
}

#[test]
fn crate_authors_returns_empty() {
    let client = sync_client();
    let authors = client.crate_authors("serde", "1.0.0").unwrap();
    assert!(authors.names.is_empty());
}

#[test]
fn reverse_deps_returns_empty() {
    let client = sync_client();
    let rdeps = client.crate_reverse_dependencies("serde").unwrap();
    assert!(rdeps.dependencies.is_empty());
    assert_eq!(rdeps.meta.total, 0);
}

#[test]
fn reverse_dep_count_returns_zero() {
    let client = sync_client();
    assert_eq!(client.crate_reverse_dependency_count("serde").unwrap(), 0);
}

#[test]
fn sync_client_summary_returns_error() {
    let client = sync_client();
    assert!(matches!(client.summary(), Err(Error::Api(_))));
}

#[test]
fn sync_client_crates_returns_error() {
    let client = sync_client();
    assert!(matches!(
        client.crates(CratesQuery::default()),
        Err(Error::Api(_))
    ));
}

#[test]
fn sync_client_user_returns_error() {
    let client = sync_client();
    assert!(matches!(client.user("ferris"), Err(Error::Api(_))));
}

// ── The asynchronous client ─────────────────────────────────────────────────

#[test]
fn async_client_is_send() {
    let client = async_client();
    let _: &dyn Send = &client;
}

#[test]
fn async_client_new_rejects_invalid_user_agent() {
    let result = AsyncClient::new("bad\nagent", 0);
    assert!(result.is_err());
}

#[test]
fn async_client_crate_downloads_returns_empty() {
    let client = async_client();
    let dl = client.crate_downloads("serde").unwrap();
    assert!(dl.version_downloads.is_empty());
}

#[test]
fn async_client_crate_owners_returns_empty() {
    let client = async_client();
    let owners = client.crate_owners("serde").unwrap();
    assert!(owners.is_empty());
}

#[test]
fn async_client_summary_returns_error() {
    let client = async_client();
    assert!(matches!(client.summary(), Err(Error::Api(_))));
}

#[test]
fn async_client_user_returns_error() {
    let client = async_client();
    assert!(matches!(client.user("ferris"), Err(Error::Api(_))));
}

#[test]
fn async_client_crates_returns_error() {
    let client = async_client();
    assert!(matches!(
        client.crates(CratesQuery::default()),
        Err(Error::Api(_))
    ));
}

#[test]
fn crates_stream_is_empty() {
    let client = async_client();
    let mut stream = client.crates_stream(CratesQuery::default());
    assert!(stream.wants_page());
    let item = stream.poll_next(PageFetch::Idle);
    assert!(matches!(item, StreamPoll::End));
    assert!(!stream.wants_page());
    assert!(matches!(stream.poll_next(PageFetch::Pending), StreamPoll::End));
}

#[test]
fn async_client_reverse_dependencies_are_empty() {
    let client = async_client();
    let rdeps = client.crate_reverse_dependencies_page("serde", 3).unwrap();
    assert!(rdeps.dependencies.is_empty());
    assert_eq!(rdeps.meta.total, 0);
    let rdeps = client.crate_reverse_dependencies("serde").unwrap();
    assert!(rdeps.dependencies.is_empty());
    assert_eq!(client.crate_reverse_dependency_count("serde").unwrap(), 0);
    assert!(client.crate_authors("serde", "1.0.0").unwrap().names.is_empty());
}

#[test]
fn sync_client_reverse_dependencies_page_is_empty() {
    let rdeps = sync_client().crate_reverse_dependencies_page("serde", 1).unwrap();
    assert!(rdeps.dependencies.is_empty());
    assert_eq!(rdeps.meta.total, 0);
}

#[test]
fn unsupported_operations_are_named() {
    says(
        sync_client().summary().map(|_| ()).unwrap_err(),
        "Operation 'summary' is not available via the sparse registry index. Use get_crate() or crate_dependencies() instead.",
    );
    says(
        sync_client().crates(CratesQuery::default()).map(|_| ()).unwrap_err(),
        "Operation 'crates' is not available via the sparse registry index. Use get_crate() or crate_dependencies() instead.",
    );
    says(
        async_client().user("ferris").map(|_| ()).unwrap_err(),
        "Operation 'user' is not available via the sparse registry index. Use get_crate() or crate_dependencies() instead.",
    );
}

#[test]
fn clients_keep_what_they_were_made_with() {
    let client = SyncClient::new("my-bot é", 10).unwrap();
    assert_eq!(client.user_agent(), &"my-bot é".as_bytes().to_vec());
    let mut limiter = client.rate_limiter();
    assert_eq!(limiter.delay(5), 0);
    limiter.record(5);
    assert_eq!(limiter.delay(6), 9);

    let client = AsyncClient::new("my-bot\twith tab", 10).unwrap();
    assert_eq!(client.clone().user_agent(), Some(&b"my-bot\twith tab".to_vec()));
    let client = AsyncClient::with_http_client(7);
    assert_eq!(client.user_agent(), None);
    let mut limiter = client.clone().rate_limiter();
    limiter.record(5);
    assert_eq!(limiter.delay(6), 6);
}

#[test]
fn control_characters_are_no_header_text() {
    for agent in ["a\rb", "\0", "del\u{7f}", "esc\u{1b}"] {
        assert!(SyncClient::new(agent, 0).is_err());
        assert!(AsyncClient::new(agent, 0).is_err());
    }
    assert!(SyncClient::new("", 0).is_ok());
}

// ── The stream ──────────────────────────────────────────────────────────────

fn krate(name: &str) -> Crate {
    let time = Timestamp { secs: 0, nanos: 0 };
    Crate {
        id: name.to_string(),
        name: name.to_string(),
        description: None,
        license: None,
        documentation: None,
        homepage: None,
        repository: None,
        downloads: 0,
        recent_downloads: None,
        categories: None,
        keywords: None,
        versions: None,
        max_version: String::new(),
        max_stable_version: None,
        links: CrateLinks {
            owner_team: String::new(),
            owner_user: String::new(),
            owners: String::new(),
            reverse_dependencies: String::new(),
            version_downloads: String::new(),
            versions: None,
        },
        created_at: time,
        updated_at: time,
        exact_match: None,
    }
}

fn page(names: &[&str]) -> CratesPage {
    CratesPage {
        crates: names.iter().map(|name| krate(name)).collect(),
        versions: vec![],
        keywords: vec![],
        categories: vec![],
        meta: Meta { total: names.len() as u64 },
    }
}

fn item_name(answer: StreamPoll) -> String {
    match answer {
        StreamPoll::Item(item) => item.name,
        _ => panic!("there is an item"),
    }
}

#[test]
fn a_page_is_handed_out_in_order() {
    let mut stream = async_client().crates_stream(CratesQuery::default());
    assert!(matches!(stream.poll_next(PageFetch::Pending), StreamPoll::Pending));
    assert!(stream.wants_page());
    assert_eq!(item_name(stream.poll_next(PageFetch::Ready(Ok(page(&["a", "b", "c"]))))), "a");
    assert!(!stream.wants_page());
    assert_eq!(item_name(stream.poll_next(PageFetch::Idle)), "b");
    assert_eq!(item_name(stream.poll_next(PageFetch::Pending)), "c");
    assert!(stream.wants_page());
    assert_eq!(item_name(stream.poll_next(PageFetch::Ready(Ok(page(&["d"]))))), "d");
    assert!(matches!(stream.poll_next(PageFetch::Ready(Ok(page(&[])))), StreamPoll::End));
    assert!(matches!(stream.poll_next(PageFetch::Ready(Ok(page(&["e"])))), StreamPoll::End));
}

#[test]
fn an_error_ends_the_stream() {
    let mut stream = async_client().crates_stream(CratesQuery::default());
    let answer = stream.poll_next(PageFetch::Ready(Err(Error::NotFound(NotFoundError { url: "there".to_string() }))));
    assert!(matches!(answer, StreamPoll::Failed(Error::NotFound(_))));
    assert!(matches!(stream.poll_next(PageFetch::Idle), StreamPoll::End));
}

// ── Exchanges ───────────────────────────────────────────────────────────────

#[test]
fn requests_are_kept_apart() {
    let mut limiter = RateLimiter::new(1_000);
    assert_eq!(limiter.delay(10), 0);
    limiter.record(10);
    assert_eq!(limiter.delay(10), 1_000);
    assert_eq!(limiter.delay(310), 700);
    assert_eq!(limiter.delay(1_009), 1);
    assert_eq!(limiter.delay(1_010), 0);
    assert_eq!(limiter.delay(5_000), 0);
    limiter.record(1_010);
    assert_eq!(limiter.delay(1_010), 1_000);
}

#[test]
fn three_requests_take_two_intervals() {
    let mut limiter = RateLimiter::new(500);
    let mut now: u128 = 7;
    let mut sent = vec![];
    for _ in 0..3 {
        now += limiter.delay(now);
        limiter.record(now);
        sent.push(now);
        now += 20;
    }
    assert_eq!(sent, vec![7, 507, 1_007]);
}

#[test]
fn no_interval_no_delay() {
    let mut limiter = RateLimiter::new(0);
    limiter.record(3);
    assert_eq!(limiter.delay(3), 0);
}

#[test]
fn statuses() {
    for status in [200, 204, 299] {
        assert_eq!(classify_status(status), Reply::File);
    }
    assert_eq!(classify_status(404), Reply::Missing);
    assert_eq!(classify_status(403), Reply::Forbidden);
    for status in [100, 199, 300, 304, 400, 410, 429, 500, 503] {
        assert_eq!(classify_status(status), Reply::Failed);
    }
}

#[test]
fn what_a_request_brings() {
    let url = "https://index.crates.io/1/a";
    assert_eq!(conclude(url, Received::File(Ok("body".to_string()))).unwrap(), "body");
    for received in [
        Received::NoReply(http_error()),
        Received::File(Err(http_error())),
        Received::Failed(http_error()),
    ] {
        assert!(matches!(conclude(url, received), Err(Error::Http(_))));
    }
    match conclude(url, Received::Missing) {
        Err(Error::NotFound(error)) => assert_eq!(error.url, url),
        _ => panic!("the file is missing"),
    }
    match conclude(url, Received::Forbidden(Ok("no entry".to_string()))) {
        Err(Error::PermissionDenied(error)) => assert_eq!(error.reason, "no entry"),
        _ => panic!("the file may not be read"),
    }
    match conclude(url, Received::Forbidden(Err(http_error()))) {
        Err(Error::PermissionDenied(error)) => assert_eq!(error.reason, ""),
        _ => panic!("the file may not be read"),
    }
}

#[test]
fn the_status_decides_what_a_request_brings() {
    let url = "https://index.crates.io/1/a";
    for status in [200, 206, 299, 301, 403, 404, 410, 500] {
        let received = match classify_status(status) {
            Reply::File => Received::File(Ok("body".to_string())),
            Reply::Missing => Received::Missing,
            Reply::Forbidden => Received::Forbidden(Ok("body".to_string())),
            Reply::Failed => Received::Failed(http_error()),
        };
        let outcome = conclude(url, received);
        match status {
            200..=299 => assert_eq!(outcome.unwrap(), "body"),
            404 => assert!(matches!(outcome, Err(Error::NotFound(error)) if error.url == url)),
            403 => assert!(
                matches!(outcome, Err(Error::PermissionDenied(error)) if error.reason == "body")
            ),
            _ => assert!(matches!(outcome, Err(Error::Http(_)))),
        }
    }
}
