use vstd::prelude::*;

use crate::outside::{semver_fields, semver_parse, SemverParts};
use crate::text::plain_version;
use crate::version::Version;

verus! {

broadcast use vstd::string::axiom_spec_iter;

/// A character of the Unicode `White_Space` property, which `char::is_whitespace` tests.
pub open spec fn is_white_space(c: char) -> bool {
    ('\u{9}' <= c <= '\u{d}') || c == ' ' || c == '\u{85}' || c == '\u{a0}' || c == '\u{1680}'
        || ('\u{2000}' <= c <= '\u{200a}') || c == '\u{2028}' || c == '\u{2029}' || c
        == '\u{202f}' || c == '\u{205f}' || c == '\u{3000}'
}

/// The text without its leading white space.
pub open spec fn trim_start(s: Seq<char>) -> Seq<char>
    decreases s.len(),
{
    if s.len() > 0 && is_white_space(s[0]) {
        trim_start(s.drop_first())
    } else {
        s
    }
}

/// The text without its trailing white space.
pub open spec fn trim_end(s: Seq<char>) -> Seq<char>
    decreases s.len(),
{
    if s.len() > 0 && is_white_space(s.last()) {
        trim_end(s.drop_last())
    } else {
        s
    }
}

/// The text without leading and trailing white space.
pub open spec fn trimmed(s: Seq<char>) -> Seq<char> {
    trim_end(trim_start(s))
}

/// Relies on `str::trim`: the line without leading and trailing whitespace, whitespace
/// being the Unicode `White_Space` characters.
#[verifier::external_body]
fn trim(s: &str) -> (r: String)
    ensures
        r@ == trimmed(s@),
{
    s.trim().to_string()
}

/// Relies on `String: FromIterator<char>`: the characters, in order, as a string.
#[verifier::external_body]
fn string_from(chars: &[char]) -> (r: String)
    ensures
        r@ == chars@,
{
    chars.iter().collect()
}

pub(crate) fn chars_of(s: &str) -> (r: Vec<char>)
    ensures
        r@ == s@,
{
    let mut out: Vec<char> = Vec::new();
    for c in it: s.chars()
        invariant
            it.seq() == s@,
            out@ == it.seq().subrange(0, it.index() as int),
    {
        out.push(c);
    }
    assert(out@ =~= s@);
    out
}

/// The version that text names, where it is `major.minor.patch` with no pre-release or
/// build part.
pub open spec fn version_of(s: Seq<char>) -> Option<Version> {
    match semver_fields(s) {
        Some((major, minor, patch, pre, build)) => if pre.len() == 0 && build.len() == 0 {
            Some(Version { major, minor, patch })
        } else {
            None
        },
        None => None,
    }
}

impl Version {
    /// Reads a version written `major.minor.patch`, as the `semver` crate reads it.
    pub fn parse(s: &str) -> (r: Option<Version>)
        ensures
            r == version_of(s@),
            plain_version(s@) is Some ==> r == plain_version(s@),
    {
        match semver_parse(s) {
            Some(p) => {
                let SemverParts { major, minor, patch, pre, build } = p;
                if pre.len() == 0 && build.len() == 0 {
                    Some(Version { major, minor, patch })
                } else {
                    None
                }
            },
            None => None,
        }
    }
}

/// The value of `key` in a line, where the line starts with it.
pub open spec fn value_after(line: Seq<char>, key: Seq<char>) -> Option<Seq<char>> {
    if key.len() <= line.len() && line.subrange(0, key.len() as int) == key {
        Some(line.subrange(key.len() as int, line.len() as int))
    } else {
        None
    }
}

/// The first of `lines` that starts with `key`.
pub open spec fn first_line(lines: Seq<Seq<char>>, key: Seq<char>) -> Option<Seq<char>>
    decreases lines.len(),
{
    if lines.len() == 0 {
        None
    } else if value_after(lines[0], key) is Some {
        Some(lines[0])
    } else {
        first_line(lines.drop_first(), key)
    }
}

proof fn lemma_first_line_has_key(lines: Seq<Seq<char>>, key: Seq<char>)
    ensures
        first_line(lines, key) matches Some(l) ==> value_after(l, key) is Some,
    decreases lines.len(),
{
    if lines.len() > 0 {
        lemma_first_line_has_key(lines.drop_first(), key);
    }
}

/// Why the running release could not be read from the OS release file.
#[derive(Debug, PartialEq, Eq)]
pub enum OsReleaseError {
    /// `VERSION_ID` does not hold a version.
    VersionIdParse { line: String },
    /// `VERSION_ID` or `VARIANT_ID` is missing.
    VersionIdNotFound,
}

pub open spec fn lines_view(v: Seq<String>) -> Seq<Seq<char>> {
    v.map_values(|s: String| s@)
}

fn value_in(line: &Vec<char>, key: &Vec<char>) -> (r: Option<String>)
    ensures
        match value_after(line@, key@) {
            Some(v) => r matches Some(s) && s@ == v,
            None => r is None,
        },
{
    if key.len() > line.len() {
        return None;
    }
    let mut k: usize = 0;
    while k < key.len()
        invariant
            k <= key@.len() <= line@.len(),
            forall|j: int| 0 <= j < k ==> line@[j] == key@[j],
        decreases key@.len() - k,
    {
        if line[k] != key[k] {
            assert(line@.subrange(0, key@.len() as int)[k as int] != key@[k as int]);
            return None;
        }
        k = k + 1;
    }
    assert(line@.subrange(0, key@.len() as int) =~= key@);
    let mut rest: Vec<char> = Vec::new();
    let mut i: usize = key.len();
    while i < line.len()
        invariant
            key@.len() <= i <= line@.len(),
            rest@ == line@.subrange(key@.len() as int, i as int),
        decreases line@.len() - i,
    {
        rest.push(line[i]);
        i = i + 1;
    }
    Some(string_from(rest.as_slice()))
}

fn find_line(lines: &Vec<String>, key: &Vec<char>) -> (r: Option<usize>)
    ensures
        match first_line(lines_view(lines@), key@) {
            Some(l) => r matches Some(i) && i < lines@.len() && lines@[i as int]@ == l,
            None => r is None,
        },
{
    let ghost all = lines_view(lines@);
    let mut k: usize = 0;
    assert(all.subrange(0, all.len() as int) =~= all);
    while k < lines.len()
        invariant
            k <= lines@.len(),
            all == lines_view(lines@),
            first_line(all, key@) == first_line(all.subrange(k as int, all.len() as int), key@),
        decreases lines@.len() - k,
    {
        let ghost rest = all.subrange(k as int, all.len() as int);
        assert(rest.drop_first() =~= all.subrange(k + 1, all.len() as int));
        assert(rest[0] == lines@[k as int]@);
        let tc = chars_of(lines[k].as_str());
        if value_in(&tc, key).is_some() {
            return Some(k);
        }
        k = k + 1;
    }
    None
}

/// The running release and flavor, as the first `VERSION_ID=` and the first `VARIANT_ID=`
/// line give them, in any order; `Err(Some(line))` where that `VERSION_ID=` line holds no
/// version, `Err(None)` where a key is missing.
pub open spec fn identity_spec(lines: Seq<Seq<char>>) -> Result<(Version, Seq<char>), Option<Seq<char>>> {
    match first_line(lines, "VERSION_ID="@) {
        None => Err(None),
        Some(line) => match version_of(value_after(line, "VERSION_ID="@)->0) {
            None => Err(Some(line)),
            Some(v) => match first_line(lines, "VARIANT_ID="@) {
                None => Err(None),
                Some(fl) => Ok((v, value_after(fl, "VARIANT_ID="@)->0)),
            },
        },
    }
}

pub open spec fn trimmed_lines(lines: Seq<Seq<char>>) -> Seq<Seq<char>> {
    lines.map_values(|l: Seq<char>| trimmed(l))
}

/// Reads the running release and flavor from lines of the OS release file that have
/// already been trimmed.
pub fn release_identity(lines: &Vec<String>) -> (r: Result<(Version, String), OsReleaseError>)
    ensures
        match identity_spec(lines_view(lines@)) {
            Ok((v, f)) => r matches Ok((rv, rf)) && rv == v && rf@ == f,
            Err(Some(l)) => r matches Err(OsReleaseError::VersionIdParse { line }) && line@ == l,
            Err(None) => r matches Err(OsReleaseError::VersionIdNotFound),
        },
{
    let version_key = chars_of("VERSION_ID=");
    let variant_key = chars_of("VARIANT_ID=");
    proof {
        lemma_first_line_has_key(lines_view(lines@), version_key@);
        lemma_first_line_has_key(lines_view(lines@), variant_key@);
    }
    let i = match find_line(lines, &version_key) {
        Some(i) => i,
        None => {
            return Err(OsReleaseError::VersionIdNotFound);
        },
    };
    assert(lines_view(lines@)[i as int] == lines@[i as int]@);
    let text = match value_in(&chars_of(lines[i].as_str()), &version_key) {
        Some(t) => t,
        None => {
            return Err(OsReleaseError::VersionIdNotFound);
        },
    };
    let version = match Version::parse(text.as_str()) {
        Some(v) => v,
        None => {
            return Err(OsReleaseError::VersionIdParse { line: lines[i].clone() });
        },
    };
    let j = match find_line(lines, &variant_key) {
        Some(j) => j,
        None => {
            return Err(OsReleaseError::VersionIdNotFound);
        },
    };
    assert(lines_view(lines@)[j as int] == lines@[j as int]@);
    match value_in(&chars_of(lines[j].as_str()), &variant_key) {
        Some(f) => Ok((version, f)),
        None => Err(OsReleaseError::VersionIdNotFound),
    }
}

/// Reads the running release and flavor from the lines of the OS release file, each
/// trimmed of surrounding whitespace first.
pub fn running_version(lines: &Vec<String>) -> (r: Result<(Version, String), OsReleaseError>)
    ensures
        match identity_spec(trimmed_lines(lines_view(lines@))) {
            Ok((v, f)) => r matches Ok((rv, rf)) && rv == v && rf@ == f,
            Err(Some(l)) => r matches Err(OsReleaseError::VersionIdParse { line }) && line@ == l,
            Err(None) => r matches Err(OsReleaseError::VersionIdNotFound),
        },
{
    let mut out: Vec<String> = Vec::new();
    let mut k: usize = 0;
    while k < lines.len()
        invariant
            k <= lines@.len(),
            lines_view(out@) == trimmed_lines(lines_view(lines@)).subrange(0, k as int),
        decreases lines@.len() - k,
    {
        let ghost before = out@;
        out.push(trim(lines[k].as_str()));
        assert(lines_view(out@) =~= lines_view(before).push(trimmed(lines@[k as int]@)));
        assert(trimmed_lines(lines_view(lines@)).subrange(0, k + 1) =~= trimmed_lines(
            lines_view(lines@),
        ).subrange(0, k as int).push(trimmed(lines@[k as int]@)));
        k = k + 1;
    }
    assert(trimmed_lines(lines_view(lines@)).subrange(0, k as int) =~= trimmed_lines(lines_view(lines@)));
    release_identity(&out)
}

} // verus!
