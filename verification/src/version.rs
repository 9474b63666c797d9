//! Semantic versions and their precedence.

use vstd::prelude::*;

verus! {

/// A semantic version: three numbers, a pre-release tag and build metadata.
/// An empty `pre` is a release; an empty `build` carries no metadata.
#[derive(Debug, Clone, PartialEq, Eq)]
pub struct Version {
    pub major: u64,
    pub minor: u64,
    pub patch: u64,
    pub pre: String,
    pub build: String,
}

/// What a `Version` stands for: its numbers and the characters of its two tags.
pub struct VersionView {
    pub major: u64,
    pub minor: u64,
    pub patch: u64,
    pub pre: Seq<char>,
    pub build: Seq<char>,
}

impl View for Version {
    type V = VersionView;

    open spec fn view(&self) -> VersionView {
        VersionView {
            major: self.major,
            minor: self.minor,
            patch: self.patch,
            pre: self.pre@,
            build: self.build@,
        }
    }
}

/// What an optional version stands for.
pub open spec fn optional_view(version: Option<Version>) -> Option<VersionView> {
    match version {
        Some(v) => Some(v@),
        None => None,
    }
}

/// `semver::Error`, why a text is no semantic version. Nothing is read out of it.
#[verifier::external_type_specification]
#[verifier::external_body]
pub struct ExSemverError(semver::Error);

/// What `semver::Version::parse` makes of a text: the version it reads, or `None`
/// where the text is no semantic version.
pub uninterp spec fn parsed_version(text: Seq<char>) -> Option<VersionView>;

/// Whether the pre-release tag `left` comes before the tag `right` in the order that
/// `semver::Prerelease` has; `None` where one of them is no pre-release tag.
pub uninterp spec fn prerelease_before(left: Seq<char>, right: Seq<char>) -> Option<bool>;

/// `semver::Version::parse`. The result is a function of the text alone; its fields
/// are copied out of the parsed value, the two tags as the strings they were read from.
#[verifier::external_body]
fn semver_parse(text: &str) -> (r: Result<Version, semver::Error>)
    ensures
        r is Ok <==> parsed_version(text@) is Some,
        r matches Ok(v) ==> parsed_version(text@) == Some(v@),
{
    let v = semver::Version::parse(text)?;
    Ok(Version {
        major: v.major,
        minor: v.minor,
        patch: v.patch,
        pre: String::from(v.pre.as_str()),
        build: String::from(v.build.as_str()),
    })
}

/// `semver::Prerelease::new` on each text, then `<` of `semver::Prerelease` on the
/// two. `None` where `new` refuses one of the texts. The empty tag, that of a
/// release, is accepted and comes before no tag.
#[verifier::external_body]
fn semver_prerelease_lt(left: &str, right: &str) -> (r: Option<bool>)
    ensures
        r == prerelease_before(left@, right@),
        left@.len() == 0 ==> r != Some(true),
{
    let l = semver::Prerelease::new(left).ok()?;
    let r = semver::Prerelease::new(right).ok()?;
    Some(l < r)
}

/// The numbers of `candidate` are greater than those of `base`, read as major,
/// minor, patch.
pub open spec fn greater_numbers(candidate: VersionView, base: VersionView) -> bool {
    if candidate.major != base.major {
        candidate.major > base.major
    } else if candidate.minor != base.minor {
        candidate.minor > base.minor
    } else {
        candidate.patch > base.patch
    }
}

/// The two versions have the same three numbers.
pub open spec fn same_numbers(candidate: VersionView, base: VersionView) -> bool {
    candidate.major == base.major && candidate.minor == base.minor && candidate.patch
        == base.patch
}

/// Precedence, given what comparing the pre-release tags gave: `candidate` is newer
/// than `base` where its numbers are greater; with the same numbers, where the tag
/// of `base` comes before that of `candidate`.
pub open spec fn newer_given(
    candidate: VersionView,
    base: VersionView,
    base_pre_before: Option<bool>,
) -> bool {
    greater_numbers(candidate, base) || (same_numbers(candidate, base) && base_pre_before == Some(
        true,
    ))
}

/// Semantic-version precedence: `candidate` is strictly greater than `base`. Build
/// metadata plays no part.
pub open spec fn newer(candidate: VersionView, base: VersionView) -> bool {
    newer_given(candidate, base, prerelease_before(base.pre, candidate.pre))
}

impl Version {
    /// The release `major.minor.patch`, with no pre-release tag and no build metadata.
    pub fn new(major: u64, minor: u64, patch: u64) -> (v: Version)
        ensures
            v@ == (VersionView { major, minor, patch, pre: Seq::empty(), build: Seq::empty() }),
    {
        Version { major, minor, patch, pre: String::new(), build: String::new() }
    }

    /// Reads a semantic version. `None` exactly where the text is none.
    pub fn parse(text: &str) -> (r: Option<Version>)
        ensures
            r is Some <==> parsed_version(text@) is Some,
            r matches Some(v) ==> parsed_version(text@) == Some(v@),
    {
        match semver_parse(text) {
            Ok(v) => Some(v),
            Err(_) => None,
        }
    }

    /// Decides precedence from the numbers and from what comparing the pre-release
    /// tags gave.
    pub fn newer_than_given(&self, base: &Version, base_pre_before: Option<bool>) -> (r: bool)
        ensures
            r == newer_given(self@, base@, base_pre_before),
    {
        if self.major != base.major {
            self.major > base.major
        } else if self.minor != base.minor {
            self.minor > base.minor
        } else if self.patch != base.patch {
            self.patch > base.patch
        } else {
            match base_pre_before {
                Some(before) => before,
                None => false,
            }
        }
    }

    /// Whether `self` takes precedence over `base`. Over a release only greater
    /// numbers do.
    pub fn newer_than(&self, base: &Version) -> (r: bool)
        ensures
            r == newer(self@, base@),
            base.pre@.len() == 0 ==> r == greater_numbers(self@, base@),
    {
        let same_numbers = self.major == base.major && self.minor == base.minor && self.patch
            == base.patch;
        let before = if same_numbers {
            semver_prerelease_lt(base.pre.as_str(), self.pre.as_str())
        } else {
            None
        };
        self.newer_than_given(base, before)
    }
}

} // verus!
