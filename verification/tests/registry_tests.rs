use install_update::registry::{
    available_versions, index_url, is_indexable, latest_among, latest_version, make_index_file,
    split_lines, IndexPackage, LookupError, Response, CRATES_IO_INDEX,
};
use install_update::version::Version;

fn body(text: &str) -> Response {
    Response::Body(String::from(text))
}

#[test]
fn test_index_files() {
    assert_eq!("1/b", make_index_file("b"));
    assert_eq!("2/xy", make_index_file("xy"));
    assert_eq!("2/x-", make_index_file("x-"));
    assert_eq!("3/x/xy7", make_index_file("xy7"));
    assert_eq!("3/x/xy-", make_index_file("xy-"));
    assert_eq!("el/se/else", make_index_file("else"));
    assert_eq!("lo/ng/long-crate", make_index_file("long-crate"));
}

#[test]
fn index_file_keeps_the_case_of_the_name() {
    assert_eq!("Se/rd/Serde", make_index_file("Serde"));
    assert_eq!("3/A/AbC", make_index_file("AbC"));
    assert_eq!("1/B", make_index_file("B"));
}

#[test]
fn index_file_goes_by_the_bytes_of_the_name() {
    assert_eq!("2/\u{e9}", make_index_file("\u{e9}"));
    assert_eq!("3/a/a\u{e9}", make_index_file("a\u{e9}"));
    assert_eq!("\u{e9}/ab/\u{e9}ab", make_index_file("\u{e9}ab"));
    assert_eq!("ab/\u{e9}/ab\u{e9}c", make_index_file("ab\u{e9}c"));
    assert_eq!("\u{e9}/\u{e9}/\u{e9}\u{e9}", make_index_file("\u{e9}\u{e9}"));
}

#[test]
fn names_that_cannot_be_cut_have_no_index_file() {
    assert!(!is_indexable(""));
    assert!(!is_indexable("\u{e9}a"));
    assert!(!is_indexable("a\u{e9}bc"));
    assert!(!is_indexable("abc\u{e9}"));
    assert!(!is_indexable("\u{20ac}"));
    assert!(is_indexable("b"));
    assert!(is_indexable("xy"));
    assert!(is_indexable("xy7"));
    assert!(is_indexable("long-crate"));
    assert!(is_indexable("\u{e9}"));
    assert!(is_indexable("a\u{e9}"));
    assert!(is_indexable("\u{e9}ab"));
    assert!(is_indexable("\u{e9}\u{e9}"));
    assert!(!is_indexable("\u{20ac}1"));
    assert!(!is_indexable("ab\u{20ac}"));
}

#[test]
fn index_url_joins_root_and_file() {
    assert_eq!(CRATES_IO_INDEX, "https://index.crates.io");
    assert_eq!(index_url("b"), "https://index.crates.io/1/b");
    assert_eq!(index_url("serde"), "https://index.crates.io/se/rd/serde");
    assert_eq!(index_url("cargo-update"), "https://index.crates.io/ca/rg/cargo-update");
}

#[test]
fn lines_are_cut_at_line_feeds() {
    assert_eq!(split_lines(""), vec![""]);
    assert_eq!(split_lines("a"), vec!["a"]);
    assert_eq!(split_lines("a\n"), vec!["a", ""]);
    assert_eq!(split_lines("\n"), vec!["", ""]);
    assert_eq!(split_lines("a\n\nb"), vec!["a", "", "b"]);
    assert_eq!(split_lines("a\r\nb"), vec!["a\r", "b"]);
}

#[test]
fn line_with_name_and_version_is_an_entry() {
    let line = "{\"name\":\"bat\",\"vers\":\"0.24.0\",\"deps\":[],\"cksum\":\"00\",\"features\":{},\"yanked\":false}";
    let entry = IndexPackage::from_line(line).unwrap();
    assert_eq!(entry.name, "bat");
    assert_eq!(entry.vers, Version::new(0, 24, 0));
}

#[test]
fn line_that_is_no_entry_gives_nothing() {
    assert_eq!(IndexPackage::from_line(""), None);
    assert_eq!(IndexPackage::from_line("not json"), None);
    assert_eq!(IndexPackage::from_line("{\"name\":\"bat\",\"vers\":\"0.24.0\""), None);
    assert_eq!(IndexPackage::from_line("{\"name\":\"bat\"}"), None);
    assert_eq!(IndexPackage::from_line("{\"vers\":\"0.24.0\"}"), None);
    assert_eq!(IndexPackage::from_line("{\"name\":\"bat\",\"vers\":\"0.24\"}"), None);
    assert_eq!(IndexPackage::from_line("{\"name\":\"bat\",\"vers\":24}"), None);
    assert_eq!(IndexPackage::from_line("{\"name\":7,\"vers\":\"0.24.0\"}"), None);
    assert_eq!(IndexPackage::from_line("\"0.24.0\""), None);
    assert_eq!(IndexPackage::from_line("[]"), None);
}

#[test]
fn entry_from_members_reads_the_version() {
    assert_eq!(IndexPackage::from_members(None), None);
    assert_eq!(
        IndexPackage::from_members(Some((String::from("bat"), String::from("0.24")))),
        None
    );
    assert_eq!(
        IndexPackage::from_members(Some((String::from("bat"), String::from("1.2.3-rc.1")))),
        Some(IndexPackage { name: String::from("bat"), vers: Version::parse("1.2.3-rc.1").unwrap() })
    );
}

#[test]
fn available_versions_keeps_the_order_of_the_lines() {
    let text = "{\"name\":\"a\",\"vers\":\"0.2.0\"}\n{\"name\":\"a\",\"vers\":\"0.1.0\"}\n\n{\"name\":\"a\",\"vers\":\"0.3.0\"}\n";
    assert_eq!(
        available_versions(text),
        vec![Version::new(0, 2, 0), Version::new(0, 1, 0), Version::new(0, 3, 0)]
    );
    assert_eq!(available_versions(""), vec![]);
    assert_eq!(available_versions("\n\n"), vec![]);
}

#[test]
fn available_versions_passes_over_invalid_lines() {
    let text = "garbage\n{\"name\":\"a\",\"vers\":\"1.0.0\"}\n{\"name\":\"a\",\"vers\":\"oops\"}\n{\"name\":\"a\"\n{\"name\":\"a\",\"vers\":\"1.1.0\"}";
    assert_eq!(available_versions(text), vec![Version::new(1, 0, 0), Version::new(1, 1, 0)]);
}

#[test]
fn latest_among_is_the_last() {
    assert_eq!(latest_among(vec![]), Err(LookupError::NotFound));
    assert_eq!(latest_among(vec![Version::new(1, 0, 0)]), Ok(Version::new(1, 0, 0)));
    assert_eq!(
        latest_among(vec![Version::new(3, 0, 0), Version::new(1, 0, 0), Version::new(2, 0, 0)]),
        Ok(Version::new(2, 0, 0))
    );
}

#[test]
fn latest_version_is_that_of_the_last_valid_line() {
    let text = "{\"name\":\"a\",\"vers\":\"0.1.0\"}\nnot json\n{\"name\":\"a\",\"vers\":\"0.2.0\"}\n{broken\n";
    assert_eq!(latest_version(&body(text)), Ok(Version::new(0, 2, 0)));
}

#[test]
fn latest_version_is_not_the_maximum() {
    let text = "{\"name\":\"a\",\"vers\":\"2.0.0\"}\n{\"name\":\"a\",\"vers\":\"1.0.1\"}\n";
    assert_eq!(latest_version(&body(text)), Ok(Version::new(1, 0, 1)));
}

#[test]
fn latest_version_of_an_empty_index_is_not_found() {
    assert_eq!(latest_version(&body("")), Err(LookupError::NotFound));
    assert_eq!(latest_version(&body("\n\n")), Err(LookupError::NotFound));
    assert_eq!(latest_version(&body("<html>404</html>")), Err(LookupError::NotFound));
}

#[test]
fn latest_version_hands_on_a_failed_fetch() {
    assert_eq!(latest_version(&Response::TransportError), Err(LookupError::TransportError));
    assert_eq!(latest_version(&Response::DecodeError), Err(LookupError::DecodeError));
}
