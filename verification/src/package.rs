//! Installed packages as the package manager records them: one entry per binary,
//! `<name> <version> (<source>)`.

use vstd::prelude::*;
use crate::text::{
    lemma_split_once_head, lemma_split_once_joined, lemma_strip_prefix_joined,
    lemma_strip_suffix_joined, split_once, split_once_at, strip_prefix, strip_suffix,
    without_prefix, without_suffix,
};
use crate::registry::{latest_version, looked_up, Response};
use crate::version::{
    greater_numbers, newer, optional_view, parsed_version, Version, VersionView,
};

verus! {

/// Where a package was installed from.
#[derive(Debug, PartialEq, Eq)]
pub enum Registry {
    /// A repository under version control, at one commit.
    Git { url: String, commit: String },
    /// A package index, by its base URL.
    Registry(String),
}

/// What a `Registry` stands for.
pub enum RegistryView {
    Git { url: Seq<char>, commit: Seq<char> },
    Registry(Seq<char>),
}

impl View for Registry {
    type V = RegistryView;

    open spec fn view(&self) -> RegistryView {
        match self {
            Registry::Git { url, commit } => RegistryView::Git { url: url@, commit: commit@ },
            Registry::Registry(url) => RegistryView::Registry(url@),
        }
    }
}

/// An installed package.
#[derive(Debug, PartialEq, Eq)]
pub struct Package {
    /// Package name
    pub name: String,
    /// Installed version
    pub version: Version,
    /// Where it was installed from
    pub registry: Registry,
    /// Newest version that the index lists, once it has been looked up
    pub latest_version: Option<Version>,
}

/// What a `Package` stands for.
pub struct PackageView {
    pub name: Seq<char>,
    pub version: VersionView,
    pub registry: RegistryView,
    pub latest_version: Option<VersionView>,
}

impl View for Package {
    type V = PackageView;

    open spec fn view(&self) -> PackageView {
        PackageView {
            name: self.name@,
            version: self.version@,
            registry: self.registry@,
            latest_version: optional_view(self.latest_version),
        }
    }
}

/// Why an entry is no package.
#[derive(Debug, Clone, Copy, PartialEq, Eq, Structural)]
pub enum EntryError {
    /// No space follows the name.
    MissingVersion,
    /// No space follows the version.
    MissingRegistry,
    /// The version is no semantic version.
    InvalidVersion,
    /// The source does not begin with `(`.
    MissingOpenParen,
    /// The source does not end with `)`.
    MissingCloseParen,
    /// A `git+` source has no `#` before its commit.
    MissingCommit,
    /// The source begins with none of `git+`, `registry+`, `sparse+`.
    InvalidPrefix,
}

/// The source between its parentheses, with the `(` taken off first.
pub open spec fn unwrapped(source: Seq<char>) -> Result<Seq<char>, EntryError> {
    match strip_prefix(source, "("@) {
        None => Err(EntryError::MissingOpenParen),
        Some(rest) => match strip_suffix(rest, ")"@) {
            None => Err(EntryError::MissingCloseParen),
            Some(inner) => Ok(inner),
        },
    }
}

/// What stands between the parentheses: `git+<url>#<commit>`, cut at the first `#`,
/// or an index URL behind `registry+` or `sparse+`.
pub open spec fn parse_origin(inner: Seq<char>) -> Result<RegistryView, EntryError> {
    match strip_prefix(inner, "git+"@) {
        Some(repository) => match split_once(repository, '#') {
            Some((url, commit)) => Ok(RegistryView::Git { url, commit }),
            None => Err(EntryError::MissingCommit),
        },
        None => match strip_prefix(inner, "registry+"@) {
            Some(url) => Ok(RegistryView::Registry(url)),
            None => match strip_prefix(inner, "sparse+"@) {
                Some(url) => Ok(RegistryView::Registry(url)),
                None => Err(EntryError::InvalidPrefix),
            },
        },
    }
}

/// The source of an entry, `(<origin>)`.
pub open spec fn parse_registry(source: Seq<char>) -> Result<RegistryView, EntryError> {
    match unwrapped(source) {
        Err(e) => Err(e),
        Ok(inner) => parse_origin(inner),
    }
}

/// How a source is written in an entry. An index is written with `registry+`.
pub open spec fn source_text(registry: RegistryView) -> Seq<char> {
    match registry {
        RegistryView::Git { url, commit } => "("@ + "git+"@ + url + "#"@ + commit + ")"@,
        RegistryView::Registry(url) => "("@ + "registry+"@ + url + ")"@,
    }
}

/// The three fields of an entry: cut at its first two spaces.
pub open spec fn entry_fields(key: Seq<char>) -> Result<
    (Seq<char>, Seq<char>, Seq<char>),
    EntryError,
> {
    match split_once(key, ' ') {
        None => Err(EntryError::MissingVersion),
        Some((name, rest)) => match split_once(rest, ' ') {
            None => Err(EntryError::MissingRegistry),
            Some((version, source)) => Ok((name, version, source)),
        },
    }
}

/// The package of a name, of what the version field was read as, and of a source.
pub open spec fn assemble(
    name: Seq<char>,
    version: Option<VersionView>,
    source: Seq<char>,
) -> Result<PackageView, EntryError> {
    match version {
        None => Err(EntryError::InvalidVersion),
        Some(version) => match parse_registry(source) {
            Err(e) => Err(e),
            Ok(registry) => Ok(PackageView { name, version, registry, latest_version: None }),
        },
    }
}

/// The package that an entry records. The fields are cut first, then the version is
/// read, then the source.
pub open spec fn parse_entry(key: Seq<char>) -> Result<PackageView, EntryError> {
    match entry_fields(key) {
        Err(e) => Err(e),
        Ok((name, version, source)) => assemble(name, parsed_version(version), source),
    }
}

/// A package is out of date where a latest version is known and takes precedence
/// over the installed one.
pub open spec fn out_of_date(package: PackageView) -> bool {
    match package.latest_version {
        Some(latest) => newer(latest, package.version),
        None => false,
    }
}

/// Cuts an entry into name, version and source.
pub fn split_entry(key: &str) -> (r: Result<(&str, &str, &str), EntryError>)
    ensures
        match r {
            Ok(fields) => entry_fields(key@) == Ok::<_, EntryError>(
                (fields.0@, fields.1@, fields.2@),
            ),
            Err(e) => entry_fields(key@) == Err::<(Seq<char>, Seq<char>, Seq<char>), _>(e),
        },
{
    match split_once_at(key, ' ') {
        None => Err(EntryError::MissingVersion),
        Some((name, rest)) => match split_once_at(rest, ' ') {
            None => Err(EntryError::MissingRegistry),
            Some((version, source)) => Ok((name, version, source)),
        },
    }
}

impl Registry {
    /// Reads the source of an entry.
    pub fn from_str(s: &str) -> (r: Result<Registry, EntryError>)
        ensures
            match r {
                Ok(registry) => parse_registry(s@) == Ok::<_, EntryError>(registry@),
                Err(e) => parse_registry(s@) == Err::<RegistryView, _>(e),
            },
    {
        let Some(rest) = without_prefix(s, "(") else {
            return Err(EntryError::MissingOpenParen);
        };
        let Some(inner) = without_suffix(rest, ")") else {
            return Err(EntryError::MissingCloseParen);
        };
        if let Some(repository) = without_prefix(inner, "git+") {
            match split_once_at(repository, '#') {
                Some((url, commit)) => Ok(
                    Registry::Git { url: url.to_owned(), commit: commit.to_owned() },
                ),
                None => Err(EntryError::MissingCommit),
            }
        } else if let Some(url) = without_prefix(inner, "registry+") {
            Ok(Registry::Registry(url.to_owned()))
        } else if let Some(url) = without_prefix(inner, "sparse+") {
            Ok(Registry::Registry(url.to_owned()))
        } else {
            Err(EntryError::InvalidPrefix)
        }
    }

    /// Writes the source as an entry holds it.
    pub fn source_id(&self) -> (text: String)
        ensures
            text@ == source_text(self@),
    {
        let mut text = String::from_str("(");
        match self {
            Registry::Git { url, commit } => {
                text.append("git+");
                text.append(url.as_str());
                text.append("#");
                text.append(commit.as_str());
            },
            Registry::Registry(url) => {
                text.append("registry+");
                text.append(url.as_str());
            },
        }
        text.append(")");
        text
    }
}

impl Package {
    /// Builds the package of an entry from its name, from what reading its version
    /// field gave, and from its source. No latest version is known yet.
    pub fn from_fields(name: &str, version: Option<Version>, source: &str) -> (r: Result<
        Package,
        EntryError,
    >)
        ensures
            match r {
                Ok(package) => assemble(name@, optional_view(version), source@) == Ok::<
                    _,
                    EntryError,
                >(package@),
                Err(e) => assemble(name@, optional_view(version), source@) == Err::<
                    PackageView,
                    _,
                >(e),
            },
    {
        let Some(version) = version else {
            return Err(EntryError::InvalidVersion);
        };
        match Registry::from_str(source) {
            Ok(registry) => Ok(
                Package { name: name.to_owned(), version, registry, latest_version: None },
            ),
            Err(e) => Err(e),
        }
    }

    /// Reads one entry, `<name> <version> (<source>)`.
    pub fn from_str(s: &str) -> (r: Result<Package, EntryError>)
        ensures
            match r {
                Ok(package) => parse_entry(s@) == Ok::<_, EntryError>(package@),
                Err(e) => parse_entry(s@) == Err::<PackageView, _>(e),
            },
    {
        match split_entry(s) {
            Ok((name, version, source)) => Package::from_fields(
                name,
                Version::parse(version),
                source,
            ),
            Err(e) => Err(e),
        }
    }
}

/// What `out_of_date` comes to for an installed release: the numbers of the latest
/// version are greater.
pub open spec fn release_out_of_date(package: PackageView) -> bool {
    match package.latest_version {
        Some(latest) => greater_numbers(latest, package.version),
        None => false,
    }
}

/// Whether a newer version of the package is known.
pub fn has_update(package: &Package) -> (r: bool)
    ensures
        r == out_of_date(package@),
        package.version.pre@.len() == 0 ==> r == release_out_of_date(package@),
{
    if let Some(latest_version) = &package.latest_version {
        latest_version.newer_than(&package.version)
    } else {
        false
    }
}

/// What a TOML document holds under a key at its top level.
#[derive(Debug, PartialEq, Eq)]
pub enum Section {
    /// Nothing.
    Absent,
    /// A value that is no table.
    NotTable,
    /// A table; these are its keys.
    Table(Vec<String>),
}

/// What a `Section` stands for.
pub enum SectionView {
    Absent,
    NotTable,
    Table(Seq<Seq<char>>),
}

/// The texts of a sequence of keys.
pub open spec fn key_texts(keys: Seq<String>) -> Seq<Seq<char>> {
    keys.map_values(|key: String| key@)
}

/// What a sequence of packages stands for.
pub open spec fn package_views(packages: Seq<Package>) -> Seq<PackageView> {
    packages.map_values(|package: Package| package@)
}

impl View for Section {
    type V = SectionView;

    open spec fn view(&self) -> SectionView {
        match self {
            Section::Absent => SectionView::Absent,
            Section::NotTable => SectionView::NotTable,
            Section::Table(keys) => SectionView::Table(key_texts(keys@)),
        }
    }
}

/// What an optional section stands for.
pub open spec fn optional_section(section: Option<Section>) -> Option<SectionView> {
    match section {
        Some(s) => Some(s@),
        None => None,
    }
}

/// Why a manifest gives no packages at all.
#[derive(Debug, Clone, Copy, PartialEq, Eq, Structural)]
pub enum ManifestError {
    /// The text is no TOML document.
    Unreadable,
    /// The document has no `v1`.
    MissingTable,
    /// The `v1` of the document is no table.
    NotATable,
}

/// `toml::de::Error`, why a text is no TOML document. Nothing is read out of it.
#[verifier::external_type_specification]
#[verifier::external_body]
pub struct ExTomlError(toml::de::Error);

/// What the `toml` crate finds in a text under a key at its top level; `None` where
/// it does not read the text as a document. The keys of a table come in the order
/// in which `toml::Table` hands them out.
pub uninterp spec fn toml_section(text: Seq<char>, key: Seq<char>) -> Option<SectionView>;

/// `str::parse` to a `toml::Table`, then `Table::get`, and for a table found there
/// `Table::keys`. The result is a function of the two texts alone.
#[verifier::external_body]
fn toml_table_keys(text: &str, key: &str) -> (r: Result<Section, toml::de::Error>)
    ensures
        r is Ok <==> toml_section(text@, key@) is Some,
        r matches Ok(section) ==> toml_section(text@, key@) == Some(section@),
{
    let root = text.parse::<toml::Table>()?;
    Ok(match root.get(key) {
        None => Section::Absent,
        Some(toml::Value::Table(table)) => Section::Table(table.keys().cloned().collect()),
        Some(_) => Section::NotTable,
    })
}

/// The packages that a sequence of keys records, in the order of the keys. A key
/// that is no entry adds nothing.
pub open spec fn recorded(keys: Seq<Seq<char>>) -> Seq<PackageView>
    decreases keys.len(),
{
    if keys.len() == 0 {
        Seq::empty()
    } else {
        match parse_entry(keys.last()) {
            Ok(package) => recorded(keys.drop_last()).push(package),
            Err(_) => recorded(keys.drop_last()),
        }
    }
}

/// The packages of a manifest, given what was found under its `v1`.
pub open spec fn installed_given(section: Option<SectionView>) -> Result<
    Seq<PackageView>,
    ManifestError,
> {
    match section {
        None => Err(ManifestError::Unreadable),
        Some(SectionView::Absent) => Err(ManifestError::MissingTable),
        Some(SectionView::NotTable) => Err(ManifestError::NotATable),
        Some(SectionView::Table(keys)) => Ok(recorded(keys)),
    }
}

/// The packages that a manifest records: those of the keys of its table `v1`.
pub open spec fn installed(contents: Seq<char>) -> Result<Seq<PackageView>, ManifestError> {
    installed_given(toml_section(contents, "v1"@))
}

/// Reads each key as an entry and keeps the packages of those that are one.
pub fn packages_of(keys: &Vec<String>) -> (packages: Vec<Package>)
    ensures
        package_views(packages@) == recorded(key_texts(keys@)),
{
    let mut packages: Vec<Package> = Vec::new();
    let mut i: usize = 0;
    while i < keys.len()
        invariant
            i <= keys.len(),
            package_views(packages@) == recorded(key_texts(keys@).take(i as int)),
        decreases keys.len() - i,
    {
        let ghost before = package_views(packages@);
        proof {
            let upto = key_texts(keys@).take(i + 1);
            assert(upto.drop_last() =~= key_texts(keys@).take(i as int));
            assert(upto.last() == keys@[i as int]@);
        }
        if let Ok(package) = Package::from_str(keys[i].as_str()) {
            packages.push(package);
            assert(package_views(packages@) =~= before.push(package@));
        }
        i += 1;
    }
    assert(key_texts(keys@).take(keys.len() as int) =~= key_texts(keys@));
    packages
}

/// The packages of a manifest from what was found under its `v1`; `None` stands for
/// a text that is no document.
pub fn packages_in(section: Option<Section>) -> (r: Result<Vec<Package>, ManifestError>)
    ensures
        match r {
            Ok(packages) => installed_given(optional_section(section)) == Ok::<_, ManifestError>(
                package_views(packages@),
            ),
            Err(e) => installed_given(optional_section(section)) == Err::<Seq<PackageView>, _>(e),
        },
{
    match section {
        None => Err(ManifestError::Unreadable),
        Some(Section::Absent) => Err(ManifestError::MissingTable),
        Some(Section::NotTable) => Err(ManifestError::NotATable),
        Some(Section::Table(keys)) => Ok(packages_of(&keys)),
    }
}

/// Reads the manifest of installed packages. Keys of `v1` that are no entry are
/// passed over; a text without a table `v1` gives an error.
pub fn find_installed_packages(contents: &str) -> (r: Result<Vec<Package>, ManifestError>)
    ensures
        match r {
            Ok(packages) => installed(contents@) == Ok::<_, ManifestError>(
                package_views(packages@),
            ),
            Err(e) => installed(contents@) == Err::<Seq<PackageView>, _>(e),
        },
{
    match toml_table_keys(contents, "v1") {
        Ok(section) => packages_in(Some(section)),
        Err(_) => packages_in(None),
    }
}

/// The package with the latest version that the response makes known; `None` where
/// it makes none known.
pub fn pull_version(package: Package, response: &Response) -> (r: Option<Package>)
    ensures
        match r {
            Some(pulled) => looked_up(response@) matches Ok(latest) && pulled@ == (PackageView {
                name: package@.name,
                version: package@.version,
                registry: package@.registry,
                latest_version: Some(latest),
            }),
            None => looked_up(response@) is Err,
        },
{
    let Package { name, version, registry, latest_version: _ } = package;
    match latest_version(response) {
        Ok(latest) => Some(Package { name, version, registry, latest_version: Some(latest) }),
        Err(_) => None,
    }
}

/// An entry written as a name without a space, a space, a version without a space,
/// a space and a source is cut into these three.
pub proof fn lemma_entry_fields(name: Seq<char>, version: Seq<char>, source: Seq<char>)
    requires
        !name.contains(' '),
        !version.contains(' '),
    ensures
        entry_fields(name + " "@ + version + " "@ + source) == Ok::<_, EntryError>(
            (name, version, source),
        ),
{
    reveal_strlit(" ");
    assert(" "@ =~= seq![' ']);
    let rest = version + seq![' '] + source;
    assert(name + " "@ + version + " "@ + source =~= name + seq![' '] + rest);
    lemma_split_once_joined(name, ' ', rest);
    lemma_split_once_joined(version, ' ', source);
}

/// A source `(registry+<url>)` or `(sparse+<url>)` is the index at that URL, for
/// every URL.
pub proof fn lemma_index_source(url: Seq<char>)
    ensures
        parse_registry("("@ + "registry+"@ + url + ")"@) == Ok::<_, EntryError>(
            RegistryView::Registry(url),
        ),
        parse_registry("("@ + "sparse+"@ + url + ")"@) == Ok::<_, EntryError>(
            RegistryView::Registry(url),
        ),
{
    reveal_strlit("git+");
    reveal_strlit("registry+");
    reveal_strlit("sparse+");
    let by_registry = "registry+"@ + url;
    let by_sparse = "sparse+"@ + url;
    assert("("@ + "registry+"@ + url + ")"@ =~= "("@ + (by_registry + ")"@));
    assert("("@ + "sparse+"@ + url + ")"@ =~= "("@ + (by_sparse + ")"@));
    lemma_strip_prefix_joined("("@, by_registry + ")"@);
    lemma_strip_prefix_joined("("@, by_sparse + ")"@);
    lemma_strip_suffix_joined(by_registry, ")"@);
    lemma_strip_suffix_joined(by_sparse, ")"@);
    assert(by_registry[0] == 'r');
    assert(by_sparse[0] == 's');
    assert(strip_prefix(by_registry, "git+"@) is None) by {
        if "git+"@.is_prefix_of(by_registry) {
            assert(by_registry.subrange(0, 4)[0] == 'g');
        }
    }
    assert(strip_prefix(by_sparse, "git+"@) is None) by {
        if "git+"@.is_prefix_of(by_sparse) {
            assert(by_sparse.subrange(0, 4)[0] == 'g');
        }
    }
    assert(strip_prefix(by_sparse, "registry+"@) is None) by {
        if "registry+"@.is_prefix_of(by_sparse) {
            assert(by_sparse.subrange(0, 9)[0] == 'r');
        }
    }
    lemma_strip_prefix_joined("registry+"@, url);
    lemma_strip_prefix_joined("sparse+"@, url);
}

/// A source `(git+<url>#<commit>)` whose URL holds no `#` is the repository at that
/// URL and commit: what stands before the first `#` and what stands behind it.
pub proof fn lemma_git_source(url: Seq<char>, commit: Seq<char>)
    requires
        !url.contains('#'),
    ensures
        parse_registry("("@ + "git+"@ + url + "#"@ + commit + ")"@) == Ok::<_, EntryError>(
            RegistryView::Git { url, commit },
        ),
{
    reveal_strlit("#");
    assert("#"@ =~= seq!['#']);
    let repository = url + seq!['#'] + commit;
    let inner = "git+"@ + repository;
    assert("("@ + "git+"@ + url + "#"@ + commit + ")"@ =~= "("@ + (inner + ")"@));
    lemma_strip_prefix_joined("("@, inner + ")"@);
    lemma_strip_suffix_joined(inner, ")"@);
    lemma_strip_prefix_joined("git+"@, repository);
    lemma_split_once_joined(url, '#', commit);
}

/// Every entry `<name> <version> (registry+<url>)` whose name and version hold no
/// space and whose version is a semantic version gives the package of that name and
/// version, installed from the index at that URL.
pub proof fn lemma_index_entry(name: Seq<char>, version: Seq<char>, url: Seq<char>)
    requires
        !name.contains(' '),
        !version.contains(' '),
        parsed_version(version) is Some,
    ensures
        parse_entry(name + " "@ + version + " "@ + ("("@ + "registry+"@ + url + ")"@)) == Ok::<
            _,
            EntryError,
        >(
            PackageView {
                name,
                version: parsed_version(version)->0,
                registry: RegistryView::Registry(url),
                latest_version: None,
            },
        ),
{
    lemma_entry_fields(name, version, "("@ + "registry+"@ + url + ")"@);
    lemma_index_source(url);
}

/// Every entry `<name> <version> (git+<url>#<commit>)` whose name and version hold no
/// space, whose version is a semantic version and whose URL holds no `#` gives the
/// package of that name and version, installed from that URL at that commit.
pub proof fn lemma_git_entry(
    name: Seq<char>,
    version: Seq<char>,
    url: Seq<char>,
    commit: Seq<char>,
)
    requires
        !name.contains(' '),
        !version.contains(' '),
        parsed_version(version) is Some,
        !url.contains('#'),
    ensures
        parse_entry(name + " "@ + version + " "@ + ("("@ + "git+"@ + url + "#"@ + commit + ")"@))
            == Ok::<_, EntryError>(
            PackageView {
                name,
                version: parsed_version(version)->0,
                registry: RegistryView::Git { url, commit },
                latest_version: None,
            },
        ),
{
    lemma_entry_fields(name, version, "("@ + "git+"@ + url + "#"@ + commit + ")"@);
    lemma_git_source(url, commit);
}

/// An entry is refused where its version is no semantic version, and where its
/// source is refused: one that does not begin with `(`, one that does not end with
/// `)`, and one whose inside begins with none of `git+`, `registry+`, `sparse+`.
pub proof fn lemma_entry_rejected(name: Seq<char>, version: Seq<char>, source: Seq<char>)
    requires
        !name.contains(' '),
        !version.contains(' '),
    ensures
        parsed_version(version) is None ==> parse_entry(name + " "@ + version + " "@ + source)
            == Err::<PackageView, _>(EntryError::InvalidVersion),
        parsed_version(version) is Some ==> (parse_entry(name + " "@ + version + " "@ + source)
            matches Err(e) ==> parse_registry(source) == Err::<RegistryView, _>(e)),
        parse_registry(source) is Err ==> parse_entry(name + " "@ + version + " "@ + source)
            is Err,
        source.len() == 0 || source[0] != '(' ==> parse_registry(source) == Err::<RegistryView, _>(
            EntryError::MissingOpenParen,
        ),
        source.len() > 0 && source[0] == '(' && (source.len() == 1 || source.last() != ')')
            ==> parse_registry(source) == Err::<RegistryView, _>(EntryError::MissingCloseParen),
{
    lemma_entry_fields(name, version, source);
    reveal_strlit("(");
    reveal_strlit(")");
    if source.len() > 0 {
        assert(source.subrange(0, 1)[0] == source[0]);
        if source[0] == '(' {
            assert("("@ =~= source.subrange(0, 1));
            let rest = source.subrange(1, source.len() as int);
            if rest.len() > 0 {
                assert(rest.subrange(rest.len() - 1, rest.len() as int)[0] == source.last());
            }
        }
    }
}

/// What stands between the parentheses of a source and begins with none of `git+`,
/// `registry+`, `sparse+` is refused for its prefix.
pub proof fn lemma_origin_rejected(inner: Seq<char>)
    requires
        !"git+"@.is_prefix_of(inner),
        !"registry+"@.is_prefix_of(inner),
        !"sparse+"@.is_prefix_of(inner),
    ensures
        parse_registry("("@ + inner + ")"@) == Err::<RegistryView, _>(EntryError::InvalidPrefix),
{
    assert("("@ + inner + ")"@ =~= "("@ + (inner + ")"@));
    lemma_strip_prefix_joined("("@, inner + ")"@);
    lemma_strip_suffix_joined(inner, ")"@);
}

/// One more key adds its package where it is an entry and nothing where it is none;
/// the packages of the keys before it stay.
pub proof fn lemma_recorded_push(keys: Seq<Seq<char>>, key: Seq<char>)
    ensures
        recorded(keys.push(key)) == match parse_entry(key) {
            Ok(package) => recorded(keys).push(package),
            Err(_) => recorded(keys),
        },
{
    assert(keys.push(key).drop_last() =~= keys);
}

/// A source that was read, written again, reads as the same source: the same URL
/// and the same commit, character for character.
pub proof fn lemma_source_round_trip(source: Seq<char>)
    requires
        parse_registry(source) is Ok,
    ensures
        parse_registry(source_text(parse_registry(source)->Ok_0)) == parse_registry(source),
{
    match parse_registry(source)->Ok_0 {
        RegistryView::Git { url, commit } => {
            let inner = unwrapped(source)->Ok_0;
            let repository = strip_prefix(inner, "git+"@)->0;
            lemma_split_once_head(repository, '#');
            lemma_git_source(url, commit);
        },
        RegistryView::Registry(url) => {
            lemma_index_source(url);
        },
    }
}

} // verus!
