use crates_io_api::index::{
    build_index_url, can_lay_out, index_file_url, index_path, lay_out, SPARSE_INDEX_BASE,
};
use crates_io_api::{Error, IndexRequest};

#[test]
fn test_index_path_1() {
    assert_eq!(index_path("a"), "1/a");
}

#[test]
fn test_index_path_2() {
    assert_eq!(index_path("ab"), "2/ab");
}

#[test]
fn test_index_path_3() {
    assert_eq!(index_path("abc"), "3/a/abc");
}

#[test]
fn test_index_path_4plus() {
    assert_eq!(index_path("serde"), "se/rd/serde");
    assert_eq!(index_path("tokio"), "to/ki/tokio");
    assert_eq!(index_path("crates_io_api"), "cr/at/crates_io_api");
}

#[test]
fn test_index_path_uppercase_normalised() {
    assert_eq!(index_path("Serde"), "se/rd/serde");
}

#[test]
fn test_build_index_url_rejects_slash() {
    assert!(matches!(build_index_url("a/b"), Err(Error::NotFound(_))));
}

#[test]
fn index_path_of_no_name_is_empty() {
    assert_eq!(index_path(""), "");
    assert_eq!(index_file_url(""), SPARSE_INDEX_BASE);
}

#[test]
fn index_path_of_four_letters() {
    assert_eq!(index_path("rand"), "ra/nd/rand");
}

#[test]
fn index_path_counts_bytes() {
    // Six bytes, cut after two and after four.
    assert_eq!(index_path("ÉÉÉ"), "é/é/ééé");
    // One letter that takes three bytes in lower case.
    assert_eq!(index_path("\u{130}"), "3/i/i\u{307}");
}

#[test]
fn names_that_differ_in_case_alone_share_a_file() {
    assert_eq!(index_file_url("SERDE_Json"), index_file_url("serde_json"));
}

#[test]
fn names_that_differ_otherwise_do_not_share_a_file() {
    assert_ne!(index_path("serde_json"), index_path("serde-json"));
    assert_ne!(index_path("a"), index_path("aa"));
}

#[test]
fn a_cut_inside_a_character_cannot_be_laid_out() {
    assert!(!can_lay_out("éa"));
    assert!(!can_lay_out("aéb"));
    assert!(can_lay_out("ééé"));
    assert_eq!(lay_out("ééé"), "é/é/ééé");
}

#[test]
fn build_index_url_of_an_ordinary_name() {
    assert_eq!(build_index_url("serde").unwrap(), "https://index.crates.io/se/rd/serde");
    assert_eq!(build_index_url("Cargo").unwrap(), "https://index.crates.io/ca/rg/cargo");
}

#[test]
fn build_index_url_gives_the_normal_form() {
    assert_eq!(build_index_url("a b").unwrap(), "https://index.crates.io/3/a/a%20b");
    assert_eq!(build_index_url("ééé").unwrap(), "https://index.crates.io/%C3%A9/%C3%A9/%C3%A9%C3%A9%C3%A9");
}

#[test]
fn build_index_url_with_slash_names_the_file() {
    match build_index_url("A/B") {
        Err(Error::NotFound(error)) => assert_eq!(error.url, "https://index.crates.io/3/a/a/b"),
        _ => panic!("a name with a slash has no file"),
    }
}

#[test]
fn request_of_an_ordinary_name() {
    let request = IndexRequest::new("Serde").unwrap();
    assert_eq!(request.crate_name(), "Serde");
    assert_eq!(request.file_url(), "https://index.crates.io/se/rd/serde");
    assert_eq!(request.url(), "https://index.crates.io/se/rd/serde");
}

#[test]
fn request_keeps_both_forms_of_the_url() {
    let request = IndexRequest::new("a b").unwrap();
    assert_eq!(request.file_url(), "https://index.crates.io/3/a/a b");
    assert_eq!(request.url(), "https://index.crates.io/3/a/a%20b");
}

#[test]
fn checked_request() {
    assert!(matches!(IndexRequest::checked("serde"), Some(Ok(_))));
    assert!(matches!(IndexRequest::checked("ééé"), Some(Ok(_))));
    assert!(matches!(IndexRequest::checked("a/b"), Some(Err(Error::NotFound(_)))));
    assert!(IndexRequest::checked("éa").is_none());
}
