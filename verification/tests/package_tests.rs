use install_update::package::{
    find_installed_packages, has_update, packages_in, packages_of, pull_version, split_entry,
    EntryError, ManifestError, Package, Registry, Section,
};
use install_update::registry::Response;
use install_update::version::Version;

fn index(url: &str) -> Registry {
    Registry::Registry(String::from(url))
}

fn package(installed: Version, latest: Option<Version>) -> Package {
    Package {
        name: String::from("ruff"),
        version: installed,
        registry: index("https://github.com/rust-lang/crates.io-index"),
        latest_version: latest,
    }
}

fn version(text: &str) -> Version {
    Version::parse(text).unwrap()
}

#[test]
fn test_registry_to_package() {
    let Package {
        name,
        version,
        registry,
        latest_version: _,
    } = Package::from_str("bat 0.24.0 (registry+https://github.com/rust-lang/crates.io-index)")
        .unwrap();
    assert_eq!(name, "bat");
    assert_eq!(version, Version::new(0, 24, 0));
    assert_eq!(
        registry,
        Registry::Registry(String::from("https://github.com/rust-lang/crates.io-index"))
    );
}

#[test]
fn test_git_to_package() {
    let Package {
        name, version, registry, latest_version: _
    } = Package::from_str("ruff 0.6.4 (git+https://github.com/astral-sh/ruff#43a5922f6f11784f74e6f553467b1be802bc2213)").unwrap();
    assert_eq!(name, "ruff");
    assert_eq!(version, Version::new(0, 6, 4));
    assert_eq!(
        registry,
        Registry::Git {
            url: String::from("https://github.com/astral-sh/ruff"),
            commit: String::from("43a5922f6f11784f74e6f553467b1be802bc2213")
        }
    );
}

#[test]
fn new_package_has_no_latest_version() {
    let package = Package::from_str("bat 0.24.0 (registry+https://example.org/index)").unwrap();
    assert_eq!(package.latest_version, None);
    assert!(!has_update(&package));
}

#[test]
fn sparse_source_is_an_index() {
    let package = Package::from_str("bat 0.24.0 (sparse+https://index.crates.io/)").unwrap();
    assert_eq!(package.registry, index("https://index.crates.io/"));
}

#[test]
fn index_url_is_kept_as_written() {
    let registry = Registry::from_str("(registry+HTTPS://Example.ORG/Index/)").unwrap();
    assert_eq!(registry, index("HTTPS://Example.ORG/Index/"));
    let empty = Registry::from_str("(registry+)").unwrap();
    assert_eq!(empty, index(""));
}

#[test]
fn git_source_is_cut_at_the_first_hash() {
    let registry = Registry::from_str("(git+https://example.org/r?branch=x#abc#def)").unwrap();
    assert_eq!(
        registry,
        Registry::Git {
            url: String::from("https://example.org/r?branch=x"),
            commit: String::from("abc#def"),
        }
    );
}

#[test]
fn git_prefix_is_tried_before_the_index_prefixes() {
    assert_eq!(Registry::from_str("(git+registry+x)"), Err(EntryError::MissingCommit));
    assert_eq!(Registry::from_str("(registry+git+x)"), Ok(index("git+x")));
}

#[test]
fn source_keeps_what_follows_the_second_space() {
    let package = Package::from_str("bat 0.24.0 (registry+https://example.org/a b c)").unwrap();
    assert_eq!(package.registry, index("https://example.org/a b c"));
    assert_eq!(
        split_entry("a b c d e"),
        Ok(("a", "b", "c d e"))
    );
}

#[test]
fn empty_name_is_a_field() {
    assert_eq!(split_entry(" 1.0.0 (registry+x)"), Ok(("", "1.0.0", "(registry+x)")));
}

#[test]
fn entry_without_a_space_misses_its_version() {
    assert_eq!(Package::from_str("bat"), Err(EntryError::MissingVersion));
    assert_eq!(Package::from_str(""), Err(EntryError::MissingVersion));
    assert_eq!(split_entry("bat"), Err(EntryError::MissingVersion));
}

#[test]
fn entry_with_one_space_misses_its_source() {
    assert_eq!(Package::from_str("bat 0.24.0"), Err(EntryError::MissingRegistry));
    assert_eq!(split_entry("bat 0.24.0"), Err(EntryError::MissingRegistry));
}

#[test]
fn entry_with_a_bad_version_is_refused() {
    assert_eq!(
        Package::from_str("bat 0.24 (registry+https://example.org)"),
        Err(EntryError::InvalidVersion)
    );
    assert_eq!(
        Package::from_str("bat  (registry+https://example.org)"),
        Err(EntryError::InvalidVersion)
    );
    assert_eq!(
        Package::from_str("bat 01.2.3 (registry+https://example.org)"),
        Err(EntryError::InvalidVersion)
    );
}

#[test]
fn bad_version_is_reported_before_a_bad_source() {
    assert_eq!(Package::from_str("bat x.y.z nonsense"), Err(EntryError::InvalidVersion));
}

#[test]
fn source_without_open_paren_is_refused() {
    assert_eq!(
        Package::from_str("bat 0.24.0 registry+https://example.org)"),
        Err(EntryError::MissingOpenParen)
    );
    assert_eq!(Registry::from_str(""), Err(EntryError::MissingOpenParen));
}

#[test]
fn source_without_close_paren_is_refused() {
    assert_eq!(
        Package::from_str("bat 0.24.0 (registry+https://example.org"),
        Err(EntryError::MissingCloseParen)
    );
    assert_eq!(Registry::from_str("("), Err(EntryError::MissingCloseParen));
}

#[test]
fn git_source_without_commit_is_refused() {
    assert_eq!(
        Package::from_str("ruff 0.6.4 (git+https://github.com/astral-sh/ruff)"),
        Err(EntryError::MissingCommit)
    );
}

#[test]
fn source_with_unknown_prefix_is_refused() {
    assert_eq!(
        Package::from_str("bat 0.24.0 (path+file:///home/me/bat)"),
        Err(EntryError::InvalidPrefix)
    );
    assert_eq!(Registry::from_str("()"), Err(EntryError::InvalidPrefix));
    assert_eq!(Registry::from_str("(Registry+x)"), Err(EntryError::InvalidPrefix));
}

#[test]
fn from_fields_takes_the_version_as_read() {
    assert_eq!(
        Package::from_fields("bat", None, "(registry+x)"),
        Err(EntryError::InvalidVersion)
    );
    let package = Package::from_fields("bat", Some(Version::new(1, 2, 3)), "(registry+x)").unwrap();
    assert_eq!(package.name, "bat");
    assert_eq!(package.version, Version::new(1, 2, 3));
    assert_eq!(package.registry, index("x"));
    assert_eq!(package.latest_version, None);
    assert_eq!(
        Package::from_fields("bat", Some(Version::new(1, 2, 3)), "registry+x"),
        Err(EntryError::MissingOpenParen)
    );
}

#[test]
fn version_of_an_entry_keeps_its_tags() {
    let package = Package::from_str("bat 1.2.3-rc.1+build.5 (registry+x)").unwrap();
    assert_eq!(package.version.major, 1);
    assert_eq!(package.version.minor, 2);
    assert_eq!(package.version.patch, 3);
    assert_eq!(package.version.pre, "rc.1");
    assert_eq!(package.version.build, "build.5");
}

#[test]
fn source_written_again_reads_the_same() {
    let sources = [
        "(registry+https://github.com/rust-lang/crates.io-index)",
        "(sparse+https://Index.Crates.IO/)",
        "(git+https://github.com/astral-sh/ruff#43a5922f6f11784f74e6f553467b1be802bc2213)",
        "(git+https://example.org/r/#a#b)",
        "(registry+)",
        "(git+#)",
    ];
    for source in sources {
        let registry = Registry::from_str(source).unwrap();
        let written = registry.source_id();
        assert_eq!(Registry::from_str(&written), Ok(registry));
    }
}

#[test]
fn source_id_is_written_with_its_prefix() {
    assert_eq!(index("https://example.org/").source_id(), "(registry+https://example.org/)");
    let git = Registry::Git { url: String::from("https://example.org/r"), commit: String::from("abc") };
    assert_eq!(git.source_id(), "(git+https://example.org/r#abc)");
    assert_eq!(
        Registry::from_str("(sparse+https://example.org/)").unwrap().source_id(),
        "(registry+https://example.org/)"
    );
}

#[test]
fn update_when_latest_is_greater() {
    assert!(has_update(&package(Version::new(0, 6, 4), Some(Version::new(0, 6, 5)))));
    assert!(has_update(&package(Version::new(1, 5, 0), Some(Version::new(1, 19, 0)))));
    assert!(has_update(&package(Version::new(1, 9, 9), Some(Version::new(2, 0, 0)))));
}

#[test]
fn no_update_when_latest_is_equal_or_less() {
    assert!(!has_update(&package(Version::new(1, 0, 0), Some(Version::new(1, 0, 0)))));
    assert!(!has_update(&package(Version::new(0, 6, 5), Some(Version::new(0, 6, 4)))));
    assert!(!has_update(&package(Version::new(1, 19, 0), Some(Version::new(1, 5, 0)))));
    assert!(!has_update(&package(Version::new(2, 0, 0), Some(Version::new(1, 9, 9)))));
}

#[test]
fn no_update_when_latest_is_unset() {
    assert!(!has_update(&package(Version::new(0, 6, 4), None)));
}

#[test]
fn release_is_an_update_of_its_pre_release() {
    assert!(has_update(&package(version("1.0.0-alpha"), Some(version("1.0.0")))));
    assert!(!has_update(&package(version("1.0.0"), Some(version("1.0.0-alpha")))));
    assert!(has_update(&package(version("1.0.0-alpha"), Some(version("1.0.0-alpha.1")))));
    assert!(has_update(&package(version("1.0.0-beta.2"), Some(version("1.0.0-beta.11")))));
    assert!(!has_update(&package(version("1.0.0-rc.1"), Some(version("1.0.0-rc.1")))));
    assert!(has_update(&package(version("1.0.0"), Some(version("1.0.1-alpha")))));
}

#[test]
fn build_metadata_makes_no_update() {
    assert!(!has_update(&package(version("1.0.0+a"), Some(version("1.0.0+b")))));
    assert!(!has_update(&package(version("1.0.0+b"), Some(version("1.0.0+a")))));
    assert!(!has_update(&package(version("1.0.0"), Some(version("1.0.0+a")))));
}

const MANIFEST: &str = r#"
[v1]
"bat 0.24.0 (registry+https://github.com/rust-lang/crates.io-index)" = ["bat"]
"ruff 0.6.4 (git+https://github.com/astral-sh/ruff#43a5922f6f11784f74e6f553467b1be802bc2213)" = ["ruff"]
"broken" = []
"nover 1.0 (registry+https://github.com/rust-lang/crates.io-index)" = ["nover"]
"noparen 1.0.0 registry+https://github.com/rust-lang/crates.io-index)" = ["noparen"]
"noclose 1.0.0 (registry+https://github.com/rust-lang/crates.io-index" = ["noclose"]
"noprefix 1.0.0 (https://github.com/rust-lang/crates.io-index)" = ["noprefix"]
"#;

#[test]
fn manifest_gives_its_valid_entries() {
    let packages = find_installed_packages(MANIFEST).unwrap();
    assert_eq!(packages.len(), 2);
    let bat = packages.iter().find(|p| p.name == "bat").unwrap();
    assert_eq!(bat.version, Version::new(0, 24, 0));
    assert_eq!(bat.registry, index("https://github.com/rust-lang/crates.io-index"));
    assert_eq!(bat.latest_version, None);
    let ruff = packages.iter().find(|p| p.name == "ruff").unwrap();
    assert_eq!(ruff.version, Version::new(0, 6, 4));
    assert_eq!(
        ruff.registry,
        Registry::Git {
            url: String::from("https://github.com/astral-sh/ruff"),
            commit: String::from("43a5922f6f11784f74e6f553467b1be802bc2213"),
        }
    );
}

#[test]
fn manifest_with_an_empty_table_gives_no_package() {
    assert_eq!(find_installed_packages("[v1]\n"), Ok(vec![]));
    assert_eq!(find_installed_packages("[v1]\n\"broken\" = []\n"), Ok(vec![]));
}

#[test]
fn manifest_that_is_no_document_is_unreadable() {
    assert_eq!(find_installed_packages("[v1"), Err(ManifestError::Unreadable));
    assert_eq!(find_installed_packages("v1 = "), Err(ManifestError::Unreadable));
}

#[test]
fn manifest_without_v1_misses_its_table() {
    assert_eq!(find_installed_packages(""), Err(ManifestError::MissingTable));
    assert_eq!(find_installed_packages("[v2]\n"), Err(ManifestError::MissingTable));
    assert_eq!(find_installed_packages("[other.v1]\n"), Err(ManifestError::MissingTable));
}

#[test]
fn manifest_whose_v1_is_no_table_is_refused() {
    assert_eq!(find_installed_packages("v1 = 3\n"), Err(ManifestError::NotATable));
    assert_eq!(find_installed_packages("v1 = [\"a 1.0.0 (registry+x)\"]\n"), Err(ManifestError::NotATable));
}

#[test]
fn manifest_looks_only_at_the_keys() {
    let packages =
        find_installed_packages("[v1]\n\"a 1.0.0 (registry+x)\" = 7\n\"b 2.0.0 (sparse+y)\" = { c = 1 }\n")
            .unwrap();
    assert_eq!(packages.len(), 2);
    assert!(packages.iter().any(|p| p.name == "a" && p.registry == index("x")));
    assert!(packages.iter().any(|p| p.name == "b" && p.registry == index("y")));
}

#[test]
fn packages_in_goes_by_what_was_found() {
    assert_eq!(packages_in(None), Err(ManifestError::Unreadable));
    assert_eq!(packages_in(Some(Section::Absent)), Err(ManifestError::MissingTable));
    assert_eq!(packages_in(Some(Section::NotTable)), Err(ManifestError::NotATable));
    assert_eq!(packages_in(Some(Section::Table(vec![]))), Ok(vec![]));
    let keys = vec![
        String::from("b 2.0.0 (sparse+y)"),
        String::from("broken"),
        String::from("a 1.0.0 (registry+x)"),
        String::from("b 2.0.0 (sparse+y)"),
    ];
    let packages = packages_in(Some(Section::Table(keys))).unwrap();
    let names: Vec<&str> = packages.iter().map(|p| p.name.as_str()).collect();
    assert_eq!(names, vec!["b", "a", "b"]);
}

#[test]
fn packages_of_keeps_the_order_of_the_keys() {
    let keys = vec![
        String::from("z 1.0.0 (registry+x)"),
        String::from("z 1.0 (registry+x)"),
        String::from("a 1.0.0 (git+u#c)"),
    ];
    let packages = packages_of(&keys);
    assert_eq!(packages.len(), 2);
    assert_eq!(packages[0].name, "z");
    assert_eq!(packages[1].name, "a");
    assert_eq!(packages_of(&vec![]), vec![]);
}

#[test]
fn pull_version_sets_the_latest_version() {
    let body = "{\"name\":\"ruff\",\"vers\":\"0.6.4\"}\n{\"name\":\"ruff\",\"vers\":\"0.6.5\"}\n";
    let pulled = pull_version(
        package(Version::new(0, 6, 4), None),
        &Response::Body(String::from(body)),
    )
    .unwrap();
    assert_eq!(pulled.name, "ruff");
    assert_eq!(pulled.version, Version::new(0, 6, 4));
    assert_eq!(pulled.registry, index("https://github.com/rust-lang/crates.io-index"));
    assert_eq!(pulled.latest_version, Some(Version::new(0, 6, 5)));
    assert!(has_update(&pulled));
}

#[test]
fn pull_version_replaces_an_earlier_latest_version() {
    let body = "{\"name\":\"ruff\",\"vers\":\"0.1.0\"}";
    let pulled = pull_version(
        package(Version::new(0, 6, 4), Some(Version::new(9, 9, 9))),
        &Response::Body(String::from(body)),
    )
    .unwrap();
    assert_eq!(pulled.latest_version, Some(Version::new(0, 1, 0)));
    assert!(!has_update(&pulled));
}

#[test]
fn pull_version_gives_nothing_when_the_lookup_fails() {
    assert_eq!(pull_version(package(Version::new(0, 6, 4), None), &Response::TransportError), None);
    assert_eq!(pull_version(package(Version::new(0, 6, 4), None), &Response::DecodeError), None);
    assert_eq!(
        pull_version(package(Version::new(0, 6, 4), None), &Response::Body(String::new())),
        None
    );
    assert_eq!(
        pull_version(
            package(Version::new(0, 6, 4), None),
            &Response::Body(String::from("not json\n{\"name\":\"ruff\"}\n"))
        ),
        None
    );
}
