use std::collections::hash_map::DefaultHasher;
use std::hash::{Hash, Hasher};

use crates_io_api::convert::{
    entries_to_crate, entry_to_version, epoch, find_max_stable_version, find_max_version,
    index_dep_to_dependency, synthesize_id,
};
use crates_io_api::response::entries_to_crate_response;
use crates_io_api::{FeatureMap, IndexDep, IndexEntry, Timestamp};

fn make_entry(name: &str, vers: &str, yanked: bool) -> IndexEntry {
    IndexEntry {
        name: name.to_string(),
        vers: vers.to_string(),
        deps: vec![],
        features: FeatureMap::default(),
        yanked,
        features2: FeatureMap::default(),
    }
}

fn make_dep(name: &str, req: &str) -> IndexDep {
    IndexDep {
        name: name.to_string(),
        req: req.to_string(),
        features: vec![],
        default_features: true,
        optional: false,
        target: None,
        kind: None,
        registry: None,
        package: None,
    }
}

#[test]
fn synthesize_id_stable() {
    assert_eq!(synthesize_id("serde", "1.0.0"), synthesize_id("serde", "1.0.0"));
    assert_ne!(synthesize_id("serde", "1.0.0"), synthesize_id("serde", "1.0.1"));
    assert_ne!(synthesize_id("ab", "cd"), synthesize_id("a", "bcd"));
}

#[test]
fn synthesize_id_hashes_name_separator_and_version() {
    let mut h = DefaultHasher::new();
    "serde".hash(&mut h);
    '\x00'.hash(&mut h);
    "1.0.0".hash(&mut h);
    assert_eq!(synthesize_id("serde", "1.0.0"), h.finish());
    assert_ne!(synthesize_id("serde", "1.0.0"), DefaultHasher::new().finish());
}

#[test]
fn find_max_version_skips_yanked() {
    let entries = vec![
        make_entry("foo", "0.1.0", false),
        make_entry("foo", "0.2.0", true),
        make_entry("foo", "0.3.0", false),
    ];
    assert_eq!(find_max_version(&entries), "0.3.0");
}

#[test]
fn find_max_version_all_yanked_falls_back() {
    let entries = vec![
        make_entry("foo", "0.1.0", true),
        make_entry("foo", "0.2.0", true),
    ];
    assert_eq!(find_max_version(&entries), "0.2.0");
}

#[test]
fn find_max_stable_version_excludes_prerelease() {
    let entries = vec![
        make_entry("foo", "1.0.0", false),
        make_entry("foo", "1.1.0-alpha.1", false),
    ];
    assert_eq!(find_max_stable_version(&entries), Some("1.0.0".to_string()));
}

#[test]
fn entry_to_version_fields() {
    let entry = make_entry("serde", "1.0.193", false);
    let v = entry_to_version(&entry);
    assert_eq!(v.crate_name, "serde");
    assert_eq!(v.num, "1.0.193");
    assert!(!v.yanked);
    assert_eq!(v.downloads, 0);
    assert!(v.license.is_none());
    assert_eq!(
        v.dl_path,
        "/api/v1/crates/serde/1.0.193/download"
    );
}

#[test]
fn index_dep_to_dependency_renamed() {
    let dep = IndexDep {
        name: "rand_alias".to_string(),
        req: "^0.8".to_string(),
        features: vec![],
        default_features: true,
        optional: false,
        target: None,
        kind: Some("normal".to_string()),
        registry: None,
        package: Some("rand".to_string()),
    };
    let d = index_dep_to_dependency(&dep, 42);
    // crate_id should be the actual package name, not the alias.
    assert_eq!(d.crate_id, "rand");
    assert_eq!(d.req, "^0.8");
    assert_eq!(d.version_id, 42);
}

#[test]
fn epoch_is_the_start_of_1970() {
    assert_eq!(epoch(), Timestamp { secs: 0, nanos: 0 });
}

#[test]
fn versions_are_compared_as_versions() {
    let entries = vec![
        make_entry("foo", "0.10.0", false),
        make_entry("foo", "0.9.0", false),
        make_entry("foo", "0.10.0-rc.1", false),
    ];
    assert_eq!(find_max_version(&entries), "0.10.0");
    assert_eq!(find_max_stable_version(&entries), Some("0.10.0".to_string()));
}

#[test]
fn prereleases_count_for_the_highest_version() {
    let entries = vec![
        make_entry("foo", "1.0.0", false),
        make_entry("foo", "1.1.0-alpha.1", false),
        make_entry("foo", "1.1.0-alpha.2", true),
    ];
    assert_eq!(find_max_version(&entries), "1.1.0-alpha.1");
}

#[test]
fn no_entry_has_no_highest_version() {
    assert_eq!(find_max_version(&[]), "");
    assert_eq!(find_max_stable_version(&[]), None);
}

#[test]
fn yanked_versions_are_never_the_highest_stable() {
    let entries = vec![make_entry("foo", "1.0.0", true)];
    assert_eq!(find_max_stable_version(&entries), None);
    assert_eq!(find_max_version(&entries), "1.0.0");
}

#[test]
fn texts_that_are_no_versions_are_passed_over() {
    let entries = vec![
        make_entry("foo", "banana", false),
        make_entry("foo", "0.1", false),
        make_entry("foo", "0.0.1", false),
    ];
    assert_eq!(find_max_version(&entries), "0.0.1");
    let entries = vec![make_entry("foo", "banana", false), make_entry("foo", "0.2.0", true)];
    assert_eq!(find_max_version(&entries), "");
    let entries = vec![make_entry("foo", "banana", true), make_entry("foo", "0.2.0", true)];
    assert_eq!(find_max_version(&entries), "0.2.0");
    let entries = vec![make_entry("foo", "banana", false)];
    assert_eq!(find_max_version(&entries), "");
}

#[test]
fn entry_to_version_is_numbered_by_its_name_and_version() {
    let v = entry_to_version(&make_entry("serde", "1.0.193", true));
    assert_eq!(v.id, synthesize_id("serde", "1.0.193"));
    assert!(v.yanked);
    assert_eq!(v.created_at, epoch());
    assert_eq!(v.updated_at, epoch());
    assert_eq!(v.links.authors, "");
    assert_eq!(v.links.dependencies, "/api/v1/crates/serde/1.0.193/dependencies");
    assert_eq!(v.links.version_downloads, "/api/v1/crates/serde/1.0.193/downloads");
    assert!(v.readme_path.is_none());
    assert!(v.crate_size.is_none());
    assert!(v.published_by.is_none());
}

#[test]
fn index_dep_to_dependency_fields() {
    let mut dep = make_dep("rand", "^0.8");
    dep.features = vec!["std".to_string(), "small_rng".to_string()];
    dep.optional = true;
    dep.default_features = false;
    dep.target = Some("cfg(unix)".to_string());
    let d = index_dep_to_dependency(&dep, 7);
    assert_eq!(d.crate_id, "rand");
    assert_eq!(d.id, synthesize_id("rand", "^0.8"));
    assert_eq!(d.kind, "normal");
    assert_eq!(d.features, vec!["std".to_string(), "small_rng".to_string()]);
    assert!(d.optional);
    assert!(!d.default_features);
    assert_eq!(d.target, Some("cfg(unix)".to_string()));
    assert_eq!(d.downloads, 0);
    assert_eq!(d.version_id, 7);
    dep.kind = Some("dev".to_string());
    assert_eq!(index_dep_to_dependency(&dep, 7).kind, "dev");
    dep.package = Some("real".to_string());
    assert_eq!(index_dep_to_dependency(&dep, 7).id, synthesize_id("real", "^0.8"));
}

#[test]
fn entries_to_crate_fields() {
    let entries = vec![
        make_entry("Foo", "1.0.0", false),
        make_entry("Foo", "1.1.0-beta", false),
        make_entry("Foo", "1.2.0", true),
    ];
    let data = entries_to_crate("foo", &entries);
    assert_eq!(data.id, "Foo");
    assert_eq!(data.name, "Foo");
    assert_eq!(data.max_version, "1.1.0-beta");
    assert_eq!(data.max_stable_version, Some("1.0.0".to_string()));
    assert_eq!(
        data.versions,
        Some(vec![
            synthesize_id("Foo", "1.0.0"),
            synthesize_id("Foo", "1.1.0-beta"),
            synthesize_id("Foo", "1.2.0"),
        ])
    );
    assert_eq!(data.categories, Some(vec![]));
    assert_eq!(data.keywords, Some(vec![]));
    assert_eq!(data.links.owner_team, "/api/v1/crates/Foo/owner_team");
    assert_eq!(data.links.owner_user, "/api/v1/crates/Foo/owner_user");
    assert_eq!(data.links.owners, "/api/v1/crates/Foo/owners");
    assert_eq!(data.links.reverse_dependencies, "/api/v1/crates/Foo/reverse_dependencies");
    assert_eq!(data.links.version_downloads, "/api/v1/crates/Foo/downloads");
    assert_eq!(data.links.versions, Some("/api/v1/crates/Foo/versions".to_string()));
    assert_eq!(data.created_at, epoch());
    assert_eq!(data.exact_match, Some(true));
    assert_eq!(data.downloads, 0);
}

#[test]
fn entries_to_crate_without_entries_keeps_the_name_asked_for() {
    let data = entries_to_crate("foo", &[]);
    assert_eq!(data.name, "foo");
    assert_eq!(data.max_version, "");
    assert_eq!(data.max_stable_version, None);
    assert_eq!(data.versions, Some(vec![]));
}

#[test]
fn both_descriptions_name_the_same_highest_version() {
    for (first, second) in [(false, false), (false, true), (true, false), (true, true)] {
        for vers in ["banana", "0.3.0", "0.1.0-rc.1"] {
            let entries = vec![make_entry("foo", vers, first), make_entry("foo", "0.2.0", second)];
            let response = entries_to_crate_response("foo", &entries);
            assert_eq!(find_max_version(&entries), response.crate_data.max_version);
        }
    }
}

#[test]
fn versions_are_ordered_by_their_parts() {
    let ascending = [
        "0.9.9",
        "1.0.0-0",
        "1.0.0-8",
        "1.0.0-12",
        "1.0.0-12.a",
        "1.0.0--",
        "1.0.0-alpha",
        "1.0.0-alpha.1",
        "1.0.0-alpha.beta",
        "1.0.0-alpha1",
        "1.0.0-beta",
        "1.0.0-beta.2",
        "1.0.0-beta.11",
        "1.0.0-beta.11+7",
        "1.0.0-pre12",
        "1.0.0-pre8",
        "1.0.0-rc.1",
        "1.0.0",
        "1.0.0+0",
        "1.0.0+00",
        "1.0.0+90",
        "1.0.0+090",
        "1.0.0+200",
        "1.0.0+200.a",
        "1.0.0+1a0",
        "1.0.0+a-b",
        "1.0.1-rc.1",
        "1.5.0",
        "1.19.0",
        "2.0.0-alpha.1",
        "18446744073709551615.0.0",
    ];
    for (i, lower) in ascending.iter().enumerate() {
        for higher in &ascending[i + 1..] {
            let entries = vec![make_entry("foo", higher, false), make_entry("foo", lower, false)];
            assert_eq!(find_max_version(&entries), *higher);
            let entries = vec![make_entry("foo", lower, false), make_entry("foo", higher, false)];
            assert_eq!(find_max_version(&entries), *higher);
        }
    }
}

#[test]
fn versions_without_a_prerelease_are_stable() {
    for (vers, stable) in [
        ("1.0.0", true),
        ("1.0.0+build", true),
        ("1.0.0+a-b", true),
        ("1.0.0-a", false),
        ("1.0.0-a+b", false),
        ("1.0.0--", false),
    ] {
        let entries = vec![make_entry("foo", vers, false)];
        assert_eq!(find_max_version(&entries), vers);
        assert_eq!(find_max_stable_version(&entries).is_some(), stable);
    }
}

#[test]
fn texts_that_are_not_written_as_versions() {
    for vers in [
        "",
        "1",
        "1.0",
        "1.0.0.0",
        "01.0.0",
        "1.00.0",
        "1.0.0-",
        "1.0.0+",
        "1.0.0-+b",
        "1.0.0-a.",
        "1.0.0-.a",
        "1.0.0-a..b",
        "1.0.0-01",
        "1.0.0-a.00",
        "1.0.0-a_b",
        "1.0.0+a+b",
        "1.0.0a",
        " 1.0.0",
        "1.0.0 ",
        "v1.0.0",
        "1.0.0-é",
        "18446744073709551616.0.0",
    ] {
        assert_eq!(find_max_version(&[make_entry("foo", vers, false)]), "");
    }
    for vers in ["1.0.0-0", "1.0.0-01a", "1.0.0+01", "0.0.0"] {
        assert_eq!(find_max_version(&[make_entry("foo", vers, false)]), vers);
    }
}
