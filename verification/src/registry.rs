//! The package index: where the file of a package lies, and what such a file lists.

use vstd::prelude::*;
use vstd::string::*;
use vstd::utf8::*;
use crate::text::{lemma_position, split_once, split_once_at};
use crate::version::{parsed_version, Version, VersionView};

verus! {

broadcast use vstd::slice::axiom_spec_len;

/// The root under which the index files lie.
pub const CRATES_IO_INDEX: &'static str = "https://index.crates.io";

/// The characters that the bytes of `name` from `from` up to `to` spell.
pub open spec fn byte_slice(name: Seq<char>, from: int, to: int) -> Seq<char> {
    decode_utf8(encode_utf8(name).subrange(from, to))
}

/// The names that have an index file: not empty, and where the name is cut, after
/// its first byte if it has three and after its second and fourth if it has more,
/// a character ends.
pub open spec fn indexable(name: Seq<char>) -> bool {
    let bytes = encode_utf8(name);
    &&& bytes.len() >= 1
    &&& bytes.len() == 3 ==> is_char_boundary(bytes, 1)
    &&& bytes.len() >= 4 ==> is_char_boundary(bytes, 2) && is_char_boundary(bytes, 4)
}

/// The path of the index file of a name, by the length of the name in bytes:
/// `1/<name>`, `2/<name>`, `3/<first byte>/<name>`, and from four bytes on
/// `<first two bytes>/<next two bytes>/<name>`.
pub open spec fn index_file(name: Seq<char>) -> Seq<char> {
    let len = encode_utf8(name).len();
    if len == 1 {
        "1/"@ + name
    } else if len == 2 {
        "2/"@ + name
    } else if len == 3 {
        "3/"@ + byte_slice(name, 0, 1) + "/"@ + name
    } else {
        byte_slice(name, 0, 2) + "/"@ + byte_slice(name, 2, 4) + "/"@ + name
    }
}

/// Whether a name has an index file.
pub fn is_indexable(name: &str) -> (r: bool)
    ensures
        r == indexable(name@),
{
    let len: usize = name.as_bytes().len();
    if len == 0 {
        false
    } else if len == 3 {
        name.is_char_boundary(1)
    } else if len >= 4 {
        name.is_char_boundary(2) && name.is_char_boundary(4)
    } else {
        true
    }
}

/// Create an index file based on a package name
pub fn make_index_file(name: &str) -> (path: String)
    requires
        indexable(name@),
    ensures
        path@ == index_file(name@),
{
    let len: usize = name.as_bytes().len();
    if len == 1 {
        let mut path = String::from_str("1/");
        path.append(name);
        path
    } else if len == 2 {
        let mut path = String::from_str("2/");
        path.append(name);
        path
    } else if len == 3 {
        let (first, _) = name.split_at(1);
        proof {
            encode_utf8_decode_utf8(first@);
        }
        let mut path = String::from_str("3/");
        path.append(first);
        path.append("/");
        path.append(name);
        path
    } else {
        let (head, tail) = name.split_at(2);
        proof {
            let bytes = name.spec_bytes();
            let rest = tail.spec_bytes();
            encode_utf8_valid_utf8(name@);
            encode_utf8_valid_utf8(tail@);
            if len == 4 {
                is_char_boundary_start_end_of_seq(rest);
            } else {
                assert(rest[2] == bytes[4]);
                is_char_boundary_iff_not_is_continuation_byte(bytes, 4);
                is_char_boundary_iff_not_is_continuation_byte(rest, 2);
            }
        }
        let (next, _) = tail.split_at(2);
        proof {
            assert(next.spec_bytes() =~= name.spec_bytes().subrange(2, 4));
            encode_utf8_decode_utf8(head@);
            encode_utf8_decode_utf8(next@);
        }
        let mut path = String::from_str(head);
        path.append("/");
        path.append(next);
        path.append("/");
        path.append(name);
        path
    }
}

/// The address of the index file of a name.
pub fn index_url(name: &str) -> (url: String)
    requires
        indexable(name@),
    ensures
        url@ == CRATES_IO_INDEX@ + "/"@ + index_file(name@),
{
    let file = make_index_file(name);
    let mut url = String::from_str(CRATES_IO_INDEX);
    url.append("/");
    url.append(file.as_str());
    url
}

/// One line of an index file: a published version of a package.
#[derive(Debug, PartialEq, Eq)]
pub struct IndexPackage {
    /// Name of the package
    pub name: String,
    /// Version of the package
    pub vers: Version,
}

/// What an `IndexPackage` stands for.
pub struct IndexPackageView {
    pub name: Seq<char>,
    pub vers: VersionView,
}

impl View for IndexPackage {
    type V = IndexPackageView;

    open spec fn view(&self) -> IndexPackageView {
        IndexPackageView { name: self.name@, vers: self.vers@ }
    }
}

/// How fetching an index file ended.
#[derive(Debug, PartialEq, Eq)]
pub enum Response {
    /// The file was sent; this is its text.
    Body(String),
    /// No answer came, or one that reports a failure.
    TransportError,
    /// An answer came whose body is no text.
    DecodeError,
}

/// What a `Response` stands for.
pub enum ResponseView {
    Body(Seq<char>),
    TransportError,
    DecodeError,
}

impl View for Response {
    type V = ResponseView;

    open spec fn view(&self) -> ResponseView {
        match self {
            Response::Body(text) => ResponseView::Body(text@),
            Response::TransportError => ResponseView::TransportError,
            Response::DecodeError => ResponseView::DecodeError,
        }
    }
}

/// Why no latest version is known.
#[derive(Debug, Clone, Copy, PartialEq, Eq, Structural)]
pub enum LookupError {
    /// The index file lists no version.
    NotFound,
    /// The index file could not be fetched.
    TransportError,
    /// What was fetched is no text.
    DecodeError,
}

/// What `serde_json` reads in a line under two keys: the two strings that the JSON
/// object `line` has as its members `first` and `second`; `None` where the line is
/// no JSON object, or has one of the two not at all or not as a string.
pub uninterp spec fn json_members(line: Seq<char>, first: Seq<char>, second: Seq<char>) -> Option<
    (Seq<char>, Seq<char>),
>;

/// `serde_json::from_str` to a `serde_json::Value`, then `Value::get` and
/// `Value::as_str` for each key. The result is a function of the three texts alone.
#[verifier::external_body]
fn json_two_strings(line: &str, first: &str, second: &str) -> (r: Option<(String, String)>)
    ensures
        r is Some <==> json_members(line@, first@, second@) is Some,
        r matches Some(found) ==> json_members(line@, first@, second@) == Some(
            (found.0@, found.1@),
        ),
{
    let value = serde_json::from_str::<serde_json::Value>(line).ok()?;
    let a = value.get(first)?.as_str()?;
    let b = value.get(second)?.as_str()?;
    Some((String::from(a), String::from(b)))
}

/// The texts of a sequence of lines.
pub open spec fn texts(lines: Seq<&str>) -> Seq<Seq<char>> {
    lines.map_values(|line: &str| line@)
}

/// What a sequence of versions stands for.
pub open spec fn version_views(versions: Seq<Version>) -> Seq<VersionView> {
    versions.map_values(|v: Version| v@)
}

/// The lines of a text: what stands between its line feeds, before the first and
/// behind the last. A text without a line feed is one line.
pub open spec fn lines(text: Seq<char>) -> Seq<Seq<char>>
    decreases text.len(),
{
    match split_once(text, '\n') {
        Some((line, rest)) => if rest.len() < text.len() {
            seq![line] + lines(rest)
        } else {
            seq![text]
        },
        None => seq![text],
    }
}

/// The entry of a line, given the name and the version text found in it: there is
/// one where both were found and the version text is a semantic version.
pub open spec fn entry_of(members: Option<(Seq<char>, Seq<char>)>) -> Option<IndexPackageView> {
    match members {
        Some((name, vers)) => match parsed_version(vers) {
            Some(vers) => Some(IndexPackageView { name, vers }),
            None => None,
        },
        None => None,
    }
}

/// The entry that a line of an index file holds: a JSON object with at least a
/// string `name` and a string `vers` that is a semantic version.
pub open spec fn decoded(line: Seq<char>) -> Option<IndexPackageView> {
    entry_of(json_members(line, "name"@, "vers"@))
}

/// The versions that the lines list, in the order of the lines. A line that holds no
/// entry adds nothing.
pub open spec fn listed(lines: Seq<Seq<char>>) -> Seq<VersionView>
    decreases lines.len(),
{
    if lines.len() == 0 {
        Seq::empty()
    } else {
        match decoded(lines.last()) {
            Some(entry) => listed(lines.drop_last()).push(entry.vers),
            None => listed(lines.drop_last()),
        }
    }
}

/// The latest of the versions listed: the last one.
pub open spec fn latest_of(versions: Seq<VersionView>) -> Result<VersionView, LookupError> {
    if versions.len() == 0 {
        Err(LookupError::NotFound)
    } else {
        Ok(versions.last())
    }
}

/// The latest version that a response makes known.
pub open spec fn looked_up(response: ResponseView) -> Result<VersionView, LookupError> {
    match response {
        ResponseView::Body(text) => latest_of(listed(lines(text))),
        ResponseView::TransportError => Err(LookupError::TransportError),
        ResponseView::DecodeError => Err(LookupError::DecodeError),
    }
}

impl IndexPackage {
    /// The entry of a line from the name and the version text found in it.
    pub fn from_members(members: Option<(String, String)>) -> (r: Option<IndexPackage>)
        ensures
            match (r, members) {
                (Some(entry), Some(found)) => entry_of(Some((found.0@, found.1@))) == Some(entry@),
                (Some(_), None) => false,
                (None, Some(found)) => entry_of(Some((found.0@, found.1@))) is None,
                (None, None) => true,
            },
    {
        match members {
            Some((name, vers)) => match Version::parse(vers.as_str()) {
                Some(vers) => Some(IndexPackage { name, vers }),
                None => None,
            },
            None => None,
        }
    }

    /// Reads one line of an index file.
    pub fn from_line(line: &str) -> (r: Option<IndexPackage>)
        ensures
            r is Some <==> decoded(line@) is Some,
            r matches Some(entry) ==> decoded(line@) == Some(entry@),
    {
        IndexPackage::from_members(json_two_strings(line, "name", "vers"))
    }
}

/// Cuts a text into its lines.
pub fn split_lines(text: &str) -> (out: Vec<&str>)
    ensures
        texts(out@) == lines(text@),
{
    let mut out: Vec<&str> = Vec::new();
    let mut rest: &str = text;
    let mut done = false;
    while !done
        invariant
            !done ==> lines(text@) == texts(out@) + lines(rest@),
            done ==> lines(text@) == texts(out@),
        decreases
            (if done {
                0
            } else {
                1 + rest@.len()
            }),
    {
        let ghost before = texts(out@);
        proof {
            lemma_position(rest@, '\n');
        }
        match split_once_at(rest, '\n') {
            Some((line, tail)) => {
                out.push(line);
                assert(texts(out@) =~= before.push(line@));
                assert(before + (seq![line@] + lines(tail@)) =~= before.push(line@) + lines(tail@));
                rest = tail;
            },
            None => {
                out.push(rest);
                assert(texts(out@) =~= before + seq![rest@]);
                done = true;
            },
        }
    }
    out
}

/// The versions that an index file lists, in its order.
pub fn available_versions(index: &str) -> (versions: Vec<Version>)
    ensures
        version_views(versions@) == listed(lines(index@)),
{
    let all = split_lines(index);
    let mut versions: Vec<Version> = Vec::new();
    let mut i: usize = 0;
    while i < all.len()
        invariant
            i <= all.len(),
            texts(all@) == lines(index@),
            version_views(versions@) == listed(texts(all@).take(i as int)),
        decreases all.len() - i,
    {
        let ghost before = version_views(versions@);
        proof {
            let upto = texts(all@).take(i + 1);
            assert(upto.drop_last() =~= texts(all@).take(i as int));
            assert(upto.last() == all@[i as int]@);
        }
        if let Some(entry) = IndexPackage::from_line(all[i]) {
            versions.push(entry.vers);
            assert(version_views(versions@) =~= before.push(entry.vers@));
        }
        i += 1;
    }
    assert(texts(all@).take(all.len() as int) =~= texts(all@));
    versions
}

/// The latest of the versions that an index file lists: the last one, whatever its
/// precedence. The index appends, so the last is the newest published.
pub fn latest_among(versions: Vec<Version>) -> (r: Result<Version, LookupError>)
    ensures
        match r {
            Ok(v) => latest_of(version_views(versions@)) == Ok::<_, LookupError>(v@),
            Err(e) => latest_of(version_views(versions@)) == Err::<VersionView, _>(e),
        },
{
    let mut versions = versions;
    match versions.pop() {
        Some(v) => Ok(v),
        None => Err(LookupError::NotFound),
    }
}

/// The latest version of a package, from what fetching its index file gave.
pub fn latest_version(response: &Response) -> (r: Result<Version, LookupError>)
    ensures
        match r {
            Ok(v) => looked_up(response@) == Ok::<_, LookupError>(v@),
            Err(e) => looked_up(response@) == Err::<VersionView, _>(e),
        },
{
    match response {
        Response::Body(text) => latest_among(available_versions(text.as_str())),
        Response::TransportError => Err(LookupError::TransportError),
        Response::DecodeError => Err(LookupError::DecodeError),
    }
}

/// The bytes of an ASCII name from `from` up to `to` spell its characters from `from`
/// up to `to`.
pub proof fn lemma_ascii_byte_slice(name: Seq<char>, from: int, to: int)
    requires
        is_ascii_chars(name),
        0 <= from <= to <= name.len(),
    ensures
        byte_slice(name, from, to) == name.subrange(from, to),
{
    let part = name.subrange(from, to);
    is_ascii_chars_encode_utf8(name);
    is_ascii_chars_encode_utf8(part);
    assert(encode_utf8(name).subrange(from, to) =~= encode_utf8(part)) by {
        assert forall|i: int| 0 <= i < to - from implies encode_utf8(name).subrange(from, to)[i]
            == encode_utf8(part)[i] by {
            assert(part[i] == name[from + i]);
        }
    }
    encode_utf8_decode_utf8(part);
}

/// Every ASCII name but the empty one has an index file, and its path goes by the
/// number of its characters: `1/<name>`, `2/<name>`, `3/<first character>/<name>`,
/// and from four characters on `<first two>/<next two>/<name>`. No character is
/// changed.
pub proof fn lemma_ascii_index_file(name: Seq<char>)
    requires
        is_ascii_chars(name),
        name.len() >= 1,
    ensures
        indexable(name),
        name.len() == 1 ==> index_file(name) == "1/"@ + name,
        name.len() == 2 ==> index_file(name) == "2/"@ + name,
        name.len() == 3 ==> index_file(name) == "3/"@ + name.subrange(0, 1) + "/"@ + name,
        name.len() >= 4 ==> index_file(name) == name.subrange(0, 2) + "/"@ + name.subrange(2, 4)
            + "/"@ + name,
{
    let bytes = encode_utf8(name);
    is_ascii_chars_encode_utf8(name);
    encode_utf8_valid_utf8(name);
    is_char_boundary_start_end_of_seq(bytes);
    assert forall|at: int| 0 <= at < bytes.len() implies is_char_boundary(bytes, at) by {
        assert(bytes[at] == name[at] as u8);
        is_char_boundary_iff_not_is_continuation_byte(bytes, at);
    }
    if name.len() == 3 {
        lemma_ascii_byte_slice(name, 0, 1);
    }
    if name.len() >= 4 {
        lemma_ascii_byte_slice(name, 0, 2);
        lemma_ascii_byte_slice(name, 2, 4);
    }
}

/// One more line adds its version where it holds an entry and nothing where it
/// holds none; the versions of the lines before it stay, in their order.
pub proof fn lemma_listed_push(lines: Seq<Seq<char>>, line: Seq<char>)
    ensures
        listed(lines.push(line)) == match decoded(line) {
            Some(entry) => listed(lines).push(entry.vers),
            None => listed(lines),
        },
{
    assert(lines.push(line).drop_last() =~= lines);
}

/// The latest version is that of the last line that holds an entry, whatever the
/// lines before it list; lines behind it that hold none change nothing.
pub proof fn lemma_last_entry_wins(lines: Seq<Seq<char>>, line: Seq<char>)
    ensures
        decoded(line) matches Some(entry) ==> latest_of(listed(lines.push(line))) == Ok::<
            _,
            LookupError,
        >(entry.vers),
        decoded(line) is None ==> latest_of(listed(lines.push(line))) == latest_of(listed(lines)),
{
    lemma_listed_push(lines, line);
}

} // verus!
