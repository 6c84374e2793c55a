use vstd::prelude::*;

use crate::text::plain_version;
use crate::version::Timestamp;
use rand::Rng;

verus! {

/// The fields of a semantic version as the `semver` crate reads them from text:
/// major, minor, patch, pre-release identifiers, build identifiers.
pub uninterp spec fn semver_fields(s: Seq<char>) -> Option<(u64, u64, u64, Seq<Seq<char>>, Seq<Seq<char>>)>;

/// The parts of a parsed semantic version.
pub struct SemverParts {
    pub major: u64,
    pub minor: u64,
    pub patch: u64,
    pub pre: Vec<String>,
    pub build: Vec<String>,
}

pub open spec fn strings_view(v: Seq<String>) -> Seq<Seq<char>> {
    v.map_values(|s: String| s@)
}

/// Relies on `semver::Version::parse` (semver 0.9): `Ok` with the version's fields, or an
/// error, as a function of the text alone. Text that is just `major.minor.patch` in
/// decimal, without leading zeros and within `u64`, reads as those three numbers with no
/// pre-release or build part.
#[verifier::external_body]
pub(crate) fn semver_parse(s: &str) -> (r: Option<SemverParts>)
    ensures
        match r {
            Some(p) => semver_fields(s@) == Some(
                (p.major, p.minor, p.patch, strings_view(p.pre@), strings_view(p.build@)),
            ),
            None => semver_fields(s@) is None,
        },
        plain_version(s@) is Some ==> r is Some && r->0.major == plain_version(s@)->0.major
            && r->0.minor == plain_version(s@)->0.minor && r->0.patch == plain_version(s@)->0.patch
            && r->0.pre@.len() == 0 && r->0.build@.len() == 0,
{
    match semver::Version::parse(s) {
        Ok(v) => Some(SemverParts {
            major: v.major,
            minor: v.minor,
            patch: v.patch,
            pre: v.pre.iter().map(|i| i.to_string()).collect(),
            build: v.build.iter().map(|i| i.to_string()).collect(),
        }),
        Err(_) => None,
    }
}

/// Relies on chrono's `Utc::now`: the current time, as whole seconds since the Unix epoch
/// and the nanoseconds past them. Nothing is known of the value.
#[verifier::external_body]
pub(crate) fn now() -> (r: Timestamp) {
    let t = chrono::Utc::now();
    Timestamp { secs: t.timestamp(), nanos: t.timestamp_subsec_nanos() }
}

/// Relies on rand's `Rng::gen_range(low, high)` (rand 0.7) over `thread_rng`: a value in
/// `[low, high)`; it panics where `low >= high`.
#[verifier::external_body]
pub(crate) fn random_in(low: u64, high: u64) -> (r: u64)
    requires
        low < high,
    ensures
        low <= r < high,
{
    rand::thread_rng().gen_range(low, high)
}

} // verus!
