use crates_io_api::response::{empty_reverse_dependencies, not_supported};
use crates_io_api::{
    ApiError, ApiErrors, CratesQuery, CratesQueryBuilder, Dependency, Error, FeatureMap,
    JsonDecodeError, Meta, NotFoundError, PermissionDeniedError, ReverseDependenciesAsReceived,
    Sort, Timestamp, Version, VersionLinks,
};

// ── Errors ──────────────────────────────────────────────────────────────────

#[test]
fn not_found_text() {
    let error = Error::NotFound(NotFoundError { url: "there".to_string() });
    assert_eq!(error.to_string(), "Resource at 'there' could not be found");
}

#[test]
fn permission_denied_text() {
    let error = Error::PermissionDenied(PermissionDeniedError { reason: "no".to_string() });
    assert_eq!(error.to_string(), "Permission denied: no");
}

#[test]
fn json_decode_text() {
    let inner = JsonDecodeError { message: "eof".to_string() };
    assert_eq!(inner.to_string(), "Could not decode JSON: eof");
    let error = Error::JsonDecode(inner);
    assert_eq!(error.to_string(), "Could not decode registry JSON: Could not decode JSON: eof");
}

#[test]
fn api_error_text() {
    assert_eq!(ApiError { detail: None }.to_string(), "Unknown API Error");
    assert_eq!(ApiError { detail: Some("slow".to_string()) }.to_string(), "slow");
    let error = Error::Api(ApiErrors { errors: vec![] });
    assert_eq!(error.to_string(), "API Error (Unknown API error)");
    let error = Error::Api(ApiErrors {
        errors: vec![
            ApiError { detail: Some("one".to_string()) },
            ApiError { detail: None },
            ApiError { detail: Some("three".to_string()) },
        ],
    });
    assert_eq!(error.to_string(), "API Error (one, Unknown API Error, three)");
}

#[test]
fn not_supported_text() {
    assert_eq!(
        not_supported("crates").to_string(),
        "API Error (Operation 'crates' is not available via the sparse registry index. Use get_crate() or crate_dependencies() instead.)"
    );
}

#[test]
fn url_error_text() {
    let error = Error::from(url::ParseError::EmptyHost);
    assert!(matches!(error, Error::Url(url::ParseError::EmptyHost)));
    assert_eq!(error.to_string(), "empty host");
}

#[test]
fn http_error_text() {
    let inner = reqwest::Client::new().get("no url").build().unwrap_err();
    let expected = format!("{inner}");
    assert!(expected.contains("builder error"));
    let error = Error::from(inner);
    assert!(matches!(error, Error::Http(_)));
    assert_eq!(error.to_string(), expected);
}

// ── Queries ─────────────────────────────────────────────────────────────────

#[test]
fn default_query() {
    for query in [
        CratesQuery::default(),
        CratesQuery::builder().build(),
        CratesQueryBuilder::new().build(),
        CratesQueryBuilder::default().build(),
    ] {
        assert_eq!(query.sort(), &Sort::RecentUpdates);
        assert_eq!(query.page_size(), 30);
        assert_eq!(query.page(), 1);
        assert_eq!(query.user_id(), None);
        assert_eq!(query.category(), None);
        assert_eq!(query.search(), None);
    }
}

#[test]
fn built_query() {
    let query = CratesQuery::builder().search("serde").sort(Sort::Downloads).page_size(25).build();
    assert_eq!(query.search(), Some(&"serde".to_string()));
    assert_eq!(query.sort(), &Sort::Downloads);
    assert_eq!(query.page_size(), 25);
    assert_eq!(query.page(), 1);
    let query = CratesQuery::builder().user_id(7).category("parsing".to_string()).build();
    assert_eq!(query.user_id(), Some(7));
    assert_eq!(query.category(), Some(&"parsing".to_string()));
}

#[test]
fn set_query() {
    let mut query = CratesQuery::default();
    query.set_sort(Sort::Alphabetical);
    query.set_page_size(5);
    query.set_page(9);
    query.set_user_id(Some(3));
    query.set_category(Some("a".to_string()));
    query.set_search(Some("b".to_string()));
    assert_eq!(query.sort(), &Sort::Alphabetical);
    assert_eq!(query.page_size(), 5);
    assert_eq!(query.page(), 9);
    assert_eq!(query.user_id(), Some(3));
    assert_eq!(query.category(), Some(&"a".to_string()));
    assert_eq!(query.search(), Some(&"b".to_string()));
    query.set_user_id(None);
    query.set_category(None);
    query.set_search(None);
    assert_eq!(query.user_id(), None);
    assert_eq!(query.category(), None);
    assert_eq!(query.search(), None);
}

// ── Features ────────────────────────────────────────────────────────────────

#[test]
fn feature_map_holds_one_list_per_name() {
    let mut map = FeatureMap::new();
    assert!(!map.contains_key("a"));
    map.insert("a".to_string(), vec!["x".to_string()]);
    map.insert("b".to_string(), vec![]);
    map.insert("a".to_string(), vec!["y".to_string()]);
    assert!(map.contains_key("a"));
    assert_eq!(map.get("a"), Some(&vec!["y".to_string()]));
    assert_eq!(map.get("c"), None);
    let mut pairs = map.clone().into_pairs();
    pairs.sort();
    assert_eq!(
        pairs,
        vec![("a".to_string(), vec!["y".to_string()]), ("b".to_string(), vec![])]
    );
}

#[test]
fn merged_feature_maps() {
    let mut first = FeatureMap::new();
    first.insert("a".to_string(), vec!["x".to_string()]);
    let mut second = FeatureMap::new();
    second.insert("a".to_string(), vec!["y".to_string()]);
    second.insert("b".to_string(), vec!["z".to_string()]);
    let both = first.merged_with(&second);
    assert_eq!(both.get("a"), Some(&vec!["x".to_string(), "y".to_string()]));
    assert_eq!(both.get("b"), Some(&vec!["z".to_string()]));
    assert_eq!(both.into_pairs().len(), 2);
    assert_eq!(first.merged_with(&FeatureMap::new()).into_pairs().len(), 1);
}

// ── Reverse dependencies ────────────────────────────────────────────────────

fn version(id: u64, num: &str) -> Version {
    let time = Timestamp { secs: 0, nanos: 0 };
    Version {
        crate_name: "dependent".to_string(),
        created_at: time,
        updated_at: time,
        dl_path: String::new(),
        downloads: 0,
        features: FeatureMap::new(),
        id,
        num: num.to_string(),
        yanked: false,
        license: None,
        readme_path: None,
        links: VersionLinks {
            authors: String::new(),
            dependencies: String::new(),
            version_downloads: String::new(),
        },
        crate_size: None,
        published_by: None,
    }
}

fn dependency(id: u64, version_id: u64) -> Dependency {
    Dependency {
        crate_id: "serde".to_string(),
        default_features: true,
        downloads: 0,
        features: vec![],
        id,
        kind: "normal".to_string(),
        optional: false,
        req: "^1".to_string(),
        target: None,
        version_id,
    }
}

#[test]
fn pages_of_reverse_dependencies_are_joined() {
    let mut rdeps = empty_reverse_dependencies();
    rdeps.extend(ReverseDependenciesAsReceived {
        dependencies: vec![dependency(1, 10), dependency(2, 99), dependency(3, 11)],
        versions: vec![version(11, "1.0.0"), version(10, "2.0.0")],
        meta: Meta { total: 4 },
    });
    rdeps.extend(ReverseDependenciesAsReceived {
        dependencies: vec![dependency(4, 10)],
        versions: vec![version(10, "old"), version(10, "new")],
        meta: Meta { total: 5 },
    });
    let pairs: Vec<(u64, &str)> = rdeps
        .dependencies
        .iter()
        .map(|pair| (pair.dependency.id, pair.crate_version.num.as_str()))
        .collect();
    assert_eq!(pairs, vec![(1, "2.0.0"), (3, "1.0.0"), (4, "new")]);
    for pair in &rdeps.dependencies {
        assert_eq!(pair.dependency.version_id, pair.crate_version.id);
    }
    assert_eq!(rdeps.meta.total, 5);
}
