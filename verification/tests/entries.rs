use std::time::{SystemTime, UNIX_EPOCH};

use crates_io_api::entry::{bool_true, parse_index_entries};
use crates_io_api::lookup::{assemble_full_crate, find_crate, find_dependencies, find_full_crate};
use crates_io_api::precedence::{pick_highest, Admission, Candidate};
use crates_io_api::response::{
    entries_to_crate_response, entries_to_crate_response_at, entries_to_dependencies,
    highest_version,
};
use crates_io_api::text::{is_blank, split_lines};
use crates_io_api::{
    AsyncClient, Error, FeatureMap, IndexDep, IndexEntry, IndexRequest, SyncClient, Timestamp,
};
use serde_json::Value;

fn text(value: &Value, key: &str) -> Option<String> {
    value.get(key)?.as_str().map(|text| text.to_string())
}

fn texts(value: &Value) -> Option<Vec<String>> {
    value.as_array()?.iter().map(|text| text.as_str().map(|text| text.to_string())).collect()
}

fn feature_map(value: Option<&Value>) -> Option<FeatureMap> {
    let mut map = FeatureMap::new();
    if let Some(value) = value {
        for (name, values) in value.as_object()? {
            map.insert(name.to_string(), texts(values)?);
        }
    }
    Some(map)
}

fn decode_dep(value: &Value) -> Option<IndexDep> {
    Some(IndexDep {
        name: text(value, "name")?,
        req: text(value, "req")?,
        features: match value.get("features") {
            Some(features) => texts(features)?,
            None => vec![],
        },
        optional: match value.get("optional") {
            Some(optional) => optional.as_bool()?,
            None => false,
        },
        default_features: match value.get("default_features") {
            Some(default_features) => default_features.as_bool()?,
            None => bool_true(),
        },
        target: text(value, "target"),
        kind: text(value, "kind"),
        registry: text(value, "registry"),
        package: text(value, "package"),
    })
}

fn decode(line: &str) -> Option<IndexEntry> {
    let value: Value = serde_json::from_str(line).ok()?;
    Some(IndexEntry {
        name: text(&value, "name")?,
        vers: text(&value, "vers")?,
        deps: value.get("deps")?.as_array()?.iter().map(decode_dep).collect::<Option<Vec<_>>>()?,
        features: feature_map(value.get("features"))?,
        features2: feature_map(value.get("features2"))?,
        yanked: value.get("yanked")?.as_bool()?,
    })
}

fn parse(body: &str) -> Vec<IndexEntry> {
    parse_index_entries(body, &decode)
}

fn line(name: &str, vers: &str, yanked: bool) -> String {
    format!(
        "{{\"name\":\"{name}\",\"vers\":\"{vers}\",\"deps\":[],\"features\":{{}},\"yanked\":{yanked}}}\n"
    )
}

fn sync_client() -> SyncClient {
    SyncClient::new("crates-io-api-test (github.com/LuuuXXX/crates-io-api)", 500_000_000).unwrap()
}

fn async_client() -> AsyncClient {
    AsyncClient::new("crates-io-api-test (github.com/LuuuXXX/crates-io-api)", 500_000_000).unwrap()
}

// ── Parsing ─────────────────────────────────────────────────────────────────

#[test]
fn test_parse_index_entries_basic() {
    let ndjson = r#"{"name":"foo","vers":"0.1.0","deps":[],"cksum":"abc","features":{},"yanked":false}
{"name":"foo","vers":"0.2.0","deps":[],"cksum":"def","features":{},"yanked":false}
"#;
    let entries = parse(ndjson);
    assert_eq!(entries.len(), 2);
    assert_eq!(entries[0].vers, "0.1.0");
    assert_eq!(entries[1].vers, "0.2.0");
}

#[test]
fn test_parse_index_entries_skips_invalid_lines() {
    let ndjson = "not-json\n{\"name\":\"foo\",\"vers\":\"1.0.0\",\"deps\":[],\"cksum\":\"\",\"features\":{},\"yanked\":false}\n";
    let entries = parse(ndjson);
    assert_eq!(entries.len(), 1);
}

#[test]
fn blank_lines_do_not_matter() {
    let first = line("foo", "0.1.0", false);
    let second = line("foo", "0.2.0", false);
    let entries = parse(&format!("\n{first} \t\u{2003}\r\n\r\n{second}   "));
    assert_eq!(entries.len(), 2);
    assert_eq!(entries[0].vers, "0.1.0");
    assert_eq!(entries[1].vers, "0.2.0");
    assert!(parse("").is_empty());
    assert!(parse(" \n\n").is_empty());
}

#[test]
fn blank_lines_are_not_handed_to_the_decoder() {
    let entries = parse_index_entries("a\n \nb", &|text: &str| {
        assert!(!text.trim().is_empty());
        decode(&line(text, "1.0.0", false))
    });
    assert_eq!(entries.len(), 2);
    assert_eq!(entries[0].name, "a");
    assert_eq!(entries[1].name, "b");
}

#[test]
fn appended_lines_append_entries() {
    let body = line("foo", "0.1.0", false) + &line("foo", "0.2.0", true);
    let more = line("foo", "0.3.0", false);
    let entries = parse(&(body + &more));
    let versions: Vec<&str> = entries.iter().map(|entry| entry.vers.as_str()).collect();
    assert_eq!(versions, vec!["0.1.0", "0.2.0", "0.3.0"]);
    assert!(entries[1].yanked);
}

#[test]
fn lines_end_with_a_line_feed() {
    assert_eq!(split_lines("a\nb\r\nc"), vec!["a", "b", "c"]);
    assert_eq!(split_lines("a\n\nb\n"), vec!["a", "", "b"]);
    assert_eq!(split_lines("a\rb\r"), vec!["a\rb\r"]);
    assert_eq!(split_lines("a\r\r\n"), vec!["a\r"]);
    assert_eq!(split_lines("\n"), vec![""]);
    assert!(split_lines("").is_empty());
}

#[test]
fn blank_means_white_space_alone() {
    assert!(is_blank(""));
    assert!(is_blank(" \t\r\u{a0}\u{3000}"));
    assert!(!is_blank(" a "));
    assert!(!is_blank("\u{200b}"));
}

#[test]
fn default_features_are_on_unless_said_otherwise() {
    assert!(bool_true());
}

// ── A crate ─────────────────────────────────────────────────────────────────

#[test]
fn test_entries_to_crate_response_max_version() {
    let ndjson = String::new()
        + "{\"name\":\"mylib\",\"vers\":\"0.1.0\",\"deps\":[],\"cksum\":\"\",\"features\":{},\"yanked\":false}\n"
        + "{\"name\":\"mylib\",\"vers\":\"1.0.0\",\"deps\":[],\"cksum\":\"\",\"features\":{},\"yanked\":false}\n"
        + "{\"name\":\"mylib\",\"vers\":\"2.0.0-alpha.1\",\"deps\":[],\"cksum\":\"\",\"features\":{},\"yanked\":false}\n";
    let entries = parse(&ndjson);
    let resp = entries_to_crate_response("mylib", &entries);

    // max_version should be the alpha because 2.0.0-alpha.1 > 1.0.0 in semver
    assert_eq!(resp.crate_data.max_version, "2.0.0-alpha.1");
    // max_stable_version should be 1.0.0 (no pre-release)
    assert_eq!(
        resp.crate_data.max_stable_version,
        Some("1.0.0".to_string())
    );
}

#[test]
fn test_entries_to_crate_response_yanked_fallback() {
    let ndjson = String::new()
        + "{\"name\":\"mylib\",\"vers\":\"1.0.0\",\"deps\":[],\"cksum\":\"\",\"features\":{},\"yanked\":true}\n"
        + "{\"name\":\"mylib\",\"vers\":\"0.9.0\",\"deps\":[],\"cksum\":\"\",\"features\":{},\"yanked\":true}\n";
    let entries = parse(&ndjson);
    let resp = entries_to_crate_response("mylib", &entries);
    // All yanked: use highest among yanked
    assert_eq!(resp.crate_data.max_version, "1.0.0");
}

#[test]
fn test_entries_to_crate_response_version_ids_sequential() {
    let ndjson = String::new()
        + "{\"name\":\"foo\",\"vers\":\"0.1.0\",\"deps\":[],\"cksum\":\"\",\"features\":{},\"yanked\":false}\n"
        + "{\"name\":\"foo\",\"vers\":\"0.2.0\",\"deps\":[],\"cksum\":\"\",\"features\":{},\"yanked\":false}\n";
    let entries = parse(&ndjson);
    let resp = entries_to_crate_response("foo", &entries);
    assert_eq!(resp.versions[0].id, 1);
    assert_eq!(resp.versions[1].id, 2);
    assert_eq!(resp.versions[0].num, "0.1.0");
    assert_eq!(resp.versions[1].num, "0.2.0");
}

#[test]
fn test_features2_merged() {
    let ndjson = String::new()
        + "{\"name\":\"foo\",\"vers\":\"1.0.0\",\"deps\":[],\"cksum\":\"\","
        + "\"features\":{\"default\":[\"std\"]},"
        + "\"features2\":{\"async\":[\"dep:tokio\"]},"
        + "\"yanked\":false}\n";
    let entries = parse(&ndjson);
    let resp = entries_to_crate_response("foo", &entries);
    let feats = &resp.versions[0].features;
    assert!(feats.contains_key("default"));
    assert!(feats.contains_key("async"));
}

#[test]
fn features_of_both_maps_are_joined() {
    let entries = parse(
        "{\"name\":\"foo\",\"vers\":\"1.0.0\",\"deps\":[],\"yanked\":false,\"features\":{\"a\":[\"x\"],\"b\":[]},\"features2\":{\"a\":[\"y\",\"x\"],\"c\":[\"z\"]}}",
    );
    let resp = entries_to_crate_response("foo", &entries);
    let feats = &resp.versions[0].features;
    assert_eq!(feats.get("a"), Some(&vec!["x".to_string(), "y".to_string(), "x".to_string()]));
    assert_eq!(feats.get("b"), Some(&vec![]));
    assert_eq!(feats.get("c"), Some(&vec!["z".to_string()]));
    assert_eq!(feats.get("d"), None);
}

#[test]
fn response_fields() {
    let entries = parse(&(line("Foo", "1.0.0", false) + &line("Foo", "1.1.0", true)));
    let now = Timestamp { secs: 1_700_000_000, nanos: 5 };
    let resp = entries_to_crate_response_at("foo", &entries, now);
    let data = &resp.crate_data;
    assert_eq!(data.id, "Foo");
    assert_eq!(data.name, "Foo");
    assert_eq!(data.description, None);
    assert_eq!(data.downloads, 0);
    assert_eq!(data.recent_downloads, None);
    assert_eq!(data.categories, Some(vec![]));
    assert_eq!(data.keywords, Some(vec![]));
    assert_eq!(data.versions, Some(vec![1, 2]));
    assert_eq!(data.max_version, "1.0.0");
    assert_eq!(data.links.owner_team, "/api/v1/crates/Foo/owner_team");
    assert_eq!(data.links.versions, None);
    assert_eq!(data.created_at, now);
    assert_eq!(data.updated_at, now);
    assert_eq!(data.exact_match, Some(true));
    assert!(resp.categories.is_empty());
    assert!(resp.keywords.is_empty());
    assert_eq!(resp.versions[1].crate_name, "Foo");
    assert_eq!(resp.versions[1].dl_path, "/api/v1/crates/Foo/1.1.0/download");
    assert_eq!(resp.versions[1].created_at, Timestamp { secs: 0, nanos: 0 });
    assert!(resp.versions[1].yanked);
}

#[test]
fn response_without_entries_keeps_the_name_asked_for() {
    let resp = entries_to_crate_response("foo", &[]);
    assert_eq!(resp.crate_data.name, "foo");
    assert_eq!(resp.crate_data.max_version, "");
    assert_eq!(resp.crate_data.max_stable_version, None);
    assert!(resp.versions.is_empty());
}

#[test]
fn response_bears_the_time_of_the_call() {
    let before = SystemTime::now().duration_since(UNIX_EPOCH).unwrap().as_secs() as i64;
    let resp = entries_to_crate_response("foo", &parse(&line("foo", "1.0.0", false)));
    let after = SystemTime::now().duration_since(UNIX_EPOCH).unwrap().as_secs() as i64;
    assert!(before <= resp.crate_data.created_at.secs);
    assert!(resp.crate_data.created_at.secs <= after);
    assert_eq!(resp.crate_data.created_at, resp.crate_data.updated_at);
}

#[test]
fn a_version_that_is_not_yanked_comes_before_any_that_is() {
    let entries = parse(
        &(line("foo", "2.0.0", true) + &line("foo", "1.0.0-rc.1", false) + &line("foo", "0.5.0", true)),
    );
    let resp = entries_to_crate_response("foo", &entries);
    assert_eq!(resp.crate_data.max_version, "1.0.0-rc.1");
    assert_eq!(resp.crate_data.max_stable_version, None);
}

#[test]
fn an_entry_that_is_not_yanked_keeps_out_the_yanked_even_without_a_version() {
    let entries = parse(&(line("foo", "banana", false) + &line("foo", "1.0.0", true)));
    let resp = entries_to_crate_response("foo", &entries);
    assert_eq!(resp.crate_data.max_version, "");
    assert_eq!(resp.crate_data.max_stable_version, None);
}

#[test]
fn all_yanked_leaves_the_highest_stable_among_the_yanked() {
    let entries = parse(&(line("foo", "1.0.0", true) + &line("foo", "2.0.0-rc.1", true)));
    let resp = entries_to_crate_response("foo", &entries);
    assert_eq!(resp.crate_data.max_version, "2.0.0-rc.1");
    assert_eq!(resp.crate_data.max_stable_version, Some("1.0.0".to_string()));
}

#[test]
fn published_versions_stay() {
    let body = line("foo", "1.0.0", false) + &line("foo", "1.1.0", true);
    let earlier = entries_to_crate_response("foo", &parse(&body));
    let later = entries_to_crate_response("FOO", &parse(&(body + &line("Foo", "2.0.0", false))));
    assert_eq!(later.versions.len(), 3);
    assert_eq!(format!("{:?}", &earlier.versions[..]), format!("{:?}", &later.versions[..2]));
    assert_eq!(later.crate_data.name, "foo");
}

#[test]
fn highest_version_of_those_admitted() {
    let entries = parse(
        &(line("foo", "1.0.0", false) + &line("foo", "1.1.0-a", false) + &line("foo", "2.0.0", true)),
    );
    let highest = |yanked: bool, prereleases: bool| {
        highest_version(&entries, Admission { yanked, prereleases })
    };
    assert_eq!(highest(false, true), Some("1.1.0-a".to_string()));
    assert_eq!(highest(false, false), Some("1.0.0".to_string()));
    assert_eq!(highest(true, true), Some("2.0.0".to_string()));
}

#[test]
fn of_versions_as_high_the_last_is_picked() {
    let candidate = |text: &str| Candidate { version: semver::Version::parse(text).ok(), yanked: false };
    let admission = Admission { yanked: false, prereleases: true };
    let candidates = vec![candidate("1.0.0"), candidate("0.1.0"), candidate("1.0.0"), candidate("0.9.0")];
    assert_eq!(pick_highest(&candidates, admission), Some(2));
    assert_eq!(pick_highest(&vec![candidate("nothing")], admission), None);
    assert_eq!(pick_highest(&vec![], admission), None);
}

// ── Dependencies ────────────────────────────────────────────────────────────

#[test]
fn test_entries_to_dependencies_found() {
    let ndjson = String::new()
        + "{\"name\":\"foo\",\"vers\":\"1.0.0\",\"deps\":["
        + "{\"name\":\"serde\",\"req\":\"^1\",\"features\":[],\"optional\":false,\"default_features\":true,\"target\":null,\"kind\":\"normal\"}"
        + "],\"cksum\":\"\",\"features\":{},\"yanked\":false}\n";
    let entries = parse(&ndjson);
    let deps = entries_to_dependencies("1.0.0", &entries).unwrap();
    assert_eq!(deps.len(), 1);
    assert_eq!(deps[0].crate_id, "serde");
    assert_eq!(deps[0].req, "^1");
    assert_eq!(deps[0].kind, "normal");
}

#[test]
fn test_entries_to_dependencies_renamed_dep() {
    let ndjson = String::new()
        + "{\"name\":\"foo\",\"vers\":\"1.0.0\",\"deps\":["
        + "{\"name\":\"rand_alias\",\"req\":\"^0.8\",\"features\":[],\"optional\":false,\"default_features\":true,\"target\":null,\"kind\":\"normal\",\"package\":\"rand\"}"
        + "],\"cksum\":\"\",\"features\":{},\"yanked\":false}\n";
    let entries = parse(&ndjson);
    let deps = entries_to_dependencies("1.0.0", &entries).unwrap();
    // crate_id should use `package` (the real crate name)
    assert_eq!(deps[0].crate_id, "rand");
}

#[test]
fn test_entries_to_dependencies_version_not_found() {
    let ndjson = "{\"name\":\"foo\",\"vers\":\"1.0.0\",\"deps\":[],\"cksum\":\"\",\"features\":{},\"yanked\":false}\n";
    let entries = parse(ndjson);
    assert!(entries_to_dependencies("2.0.0", &entries).is_none());
}

const WITH_DEPS: &str = "{\"name\":\"foo\",\"vers\":\"1.0.0\",\"deps\":[{\"name\":\"a\",\"req\":\"^1\"},{\"name\":\"b\",\"req\":\"=2\",\"features\":[\"x\"],\"optional\":true,\"default_features\":false,\"target\":\"cfg(windows)\",\"kind\":\"build\"}],\"yanked\":false}\n";

#[test]
fn dependencies_follow_the_line() {
    let entries = parse(WITH_DEPS);
    let deps = entries_to_dependencies("1.0.0", &entries).unwrap();
    assert_eq!(deps.len(), 2);
    assert_eq!(deps[0].crate_id, "a");
    assert_eq!(deps[0].kind, "normal");
    assert!(deps[0].default_features);
    assert!(!deps[0].optional);
    assert_eq!(deps[0].target, None);
    assert_eq!(deps[1].crate_id, "b");
    assert_eq!(deps[1].req, "=2");
    assert_eq!(deps[1].kind, "build");
    assert_eq!(deps[1].features, vec!["x".to_string()]);
    assert!(!deps[1].default_features);
    assert!(deps[1].optional);
    assert_eq!(deps[1].target, Some("cfg(windows)".to_string()));
    for dep in &deps {
        assert_eq!(dep.id, 0);
        assert_eq!(dep.version_id, 0);
        assert_eq!(dep.downloads, 0);
    }
}

#[test]
fn the_first_line_of_a_version_counts() {
    let entries = parse(&(WITH_DEPS.to_string() + &line("foo", "1.0.0", false)));
    assert_eq!(entries_to_dependencies("1.0.0", &entries).unwrap().len(), 2);
}

// ── Lookups ─────────────────────────────────────────────────────────────────

#[test]
fn a_file_without_entries_is_not_found() {
    let request = IndexRequest::new("A b").unwrap();
    let now = Timestamp { secs: 0, nanos: 0 };
    for found in [
        find_crate(&request, &[], now).map(|_| ()),
        find_full_crate(&request, &[], true, now).map(|_| ()),
        sync_client().get_crate(&request, "\n", &decode).map(|_| ()),
        sync_client().full_crate(&request, "no json", &decode, false).map(|_| ()),
        async_client().get_crate(&request, "", &decode).map(|_| ()),
    ] {
        match found {
            Err(Error::NotFound(error)) => assert_eq!(error.url, "https://index.crates.io/3/a/a b"),
            _ => panic!("there is nothing to be found"),
        }
    }
}

#[test]
fn get_crate_of_both_clients() {
    let request = IndexRequest::new("foo").unwrap();
    let body = line("Foo", "1.0.0", false) + "future format\n" + &line("Foo", "1.0.1", false);
    let first = sync_client().get_crate(&request, &body, &decode).unwrap();
    let second = async_client().get_crate(&request, &body, &decode).unwrap();
    for resp in [first, second] {
        assert_eq!(resp.crate_data.name, "Foo");
        assert_eq!(resp.crate_data.max_version, "1.0.1");
        assert_eq!(resp.versions.len(), 2);
    }
}

#[test]
fn crate_dependencies_of_both_clients() {
    let request = IndexRequest::new("Foo b").unwrap();
    let first = sync_client().crate_dependencies(&request, "1.0.0", WITH_DEPS, &decode).unwrap();
    let second = async_client().crate_dependencies(&request, "1.0.0", WITH_DEPS, &decode).unwrap();
    assert_eq!(first.len(), 2);
    assert_eq!(second.len(), 2);
    match sync_client().crate_dependencies(&request, "2.0.0", WITH_DEPS, &decode) {
        Err(Error::NotFound(error)) => {
            assert_eq!(error.url, "https://index.crates.io/fo/o%20/foo%20b")
        }
        _ => panic!("there is no such version"),
    }
    match async_client().crate_dependencies(&request, "2.0.0", WITH_DEPS, &decode) {
        Err(Error::NotFound(error)) => {
            assert_eq!(error.url, "crate 'Foo b' version '2.0.0' not found in sparse index")
        }
        _ => panic!("there is no such version"),
    }
}

#[test]
fn find_dependencies_names_the_place() {
    match find_dependencies("here".to_string(), "9.9.9", &parse(WITH_DEPS)) {
        Err(Error::NotFound(error)) => assert_eq!(error.url, "here"),
        _ => panic!("there is no such version"),
    }
    assert_eq!(find_dependencies("here".to_string(), "1.0.0", &parse(WITH_DEPS)).unwrap().len(), 2);
}

#[test]
fn full_crate_of_both_clients() {
    let request = IndexRequest::new("foo").unwrap();
    let body = WITH_DEPS.to_string() + &line("foo", "0.9.0", false);
    for full in [
        sync_client().full_crate(&request, &body, &decode, true).unwrap(),
        async_client().full_crate(&request, &body, &decode, true).unwrap(),
    ] {
        assert_eq!(full.name, "foo");
        assert_eq!(full.max_version, "1.0.0");
        assert_eq!(full.total_downloads, 0);
        assert_eq!(full.license, None);
        assert!(full.owners.is_empty());
        assert!(full.downloads.version_downloads.is_empty());
        assert!(full.reverse_dependencies.dependencies.is_empty());
        assert_eq!(full.versions.len(), 2);
        assert_eq!(full.versions[0].num, "1.0.0");
        assert_eq!(full.versions[0].id, 1);
        assert_eq!(full.versions[0].dependencies.len(), 2);
        assert!(full.versions[0].author_names.is_empty());
        assert_eq!(
            full.versions[0].links.dependencies,
            "/api/v1/crates/foo/1.0.0/dependencies"
        );
        assert!(full.versions[1].dependencies.is_empty());
    }
}

#[test]
fn full_crate_with_its_latest_version_alone() {
    let request = IndexRequest::new("foo").unwrap();
    let body = line("foo", "0.9.0", false) + WITH_DEPS;
    for full in [
        sync_client().full_crate(&request, &body, &decode, false).unwrap(),
        async_client().full_crate(&request, &body, &decode, false).unwrap(),
    ] {
        assert_eq!(full.versions.len(), 1);
        assert_eq!(full.versions[0].num, "1.0.0");
        assert_eq!(full.versions[0].id, 2);
        assert_eq!(full.versions[0].dependencies.len(), 2);
    }
}

#[test]
fn full_crate_carries_the_license_of_the_latest_version() {
    let entries = parse(&(line("foo", "0.9.0", false) + WITH_DEPS));
    let mut resp = entries_to_crate_response("foo", &entries);
    resp.versions[0].license = Some("MIT".to_string());
    resp.versions[1].license = Some("ISC".to_string());
    resp.crate_data.description = Some("a crate".to_string());
    let full = assemble_full_crate(resp, &entries, true);
    assert_eq!(full.license, Some("ISC".to_string()));
    assert_eq!(full.versions[0].license, Some("MIT".to_string()));
    assert_eq!(full.description, Some("a crate".to_string()));
}

#[test]
fn white_space_is_what_unicode_says() {
    let listed = [
        '\u{9}', '\u{a}', '\u{b}', '\u{c}', '\u{d}', ' ', '\u{85}', '\u{a0}', '\u{1680}',
        '\u{2000}', '\u{2001}', '\u{2002}', '\u{2003}', '\u{2004}', '\u{2005}', '\u{2006}',
        '\u{2007}', '\u{2008}', '\u{2009}', '\u{200a}', '\u{2028}', '\u{2029}', '\u{202f}',
        '\u{205f}', '\u{3000}',
    ];
    for c in '\0'..=char::MAX {
        assert_eq!(is_blank(&c.to_string()), listed.contains(&c));
    }
}

#[test]
fn the_order_of_the_entries_does_not_matter_for_the_highest_versions() {
    let lines = [
        line("foo", "1.0.0", false),
        line("foo", "2.0.0-rc.1", false),
        line("foo", "2.0.0-rc.1+build", false),
        line("foo", "3.0.0", true),
        line("foo", "banana", false),
    ];
    for first in 0..lines.len() {
        for second in 0..lines.len() {
            let mut reordered = lines.to_vec();
            reordered.swap(first, second);
            let resp = entries_to_crate_response("foo", &parse(&reordered.concat()));
            assert_eq!(resp.crate_data.max_version, "2.0.0-rc.1+build");
            assert_eq!(resp.crate_data.max_stable_version, Some("1.0.0".to_string()));
        }
    }
}

#[test]
fn texts_joined_by_a_line_feed_join_their_entries() {
    let first = line("foo", "0.1.0", false);
    let second = line("foo", "0.2.0", false);
    let texts = [
        "".to_string(),
        " ".to_string(),
        "no json".to_string(),
        "\r".to_string(),
        first.clone(),
        first.trim_end().to_string(),
        first.trim_end().to_string() + "\r",
        format!("no json\n{second}"),
        format!("{first}{}", second.trim_end()),
    ];
    let versions = |body: &str| -> Vec<String> {
        parse(body).into_iter().map(|entry| entry.vers).collect()
    };
    for a in &texts {
        for b in &texts {
            let mut expected = versions(a);
            expected.extend(versions(b));
            assert_eq!(versions(&format!("{a}\n{b}")), expected);
        }
    }
}

#[test]
fn a_line_that_is_skipped_has_no_entry() {
    for text in ["", " \t", "\r", "no json", "no json\r", "{}"] {
        assert!(parse(text).is_empty());
    }
}
