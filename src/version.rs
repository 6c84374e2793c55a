use vstd::prelude::*;

verus! {

/// A release version, `major.minor.patch`, ordered by its three numbers in turn.
#[derive(Clone, Copy, Debug, PartialEq, Eq, Structural)]
pub struct Version {
    pub major: u64,
    pub minor: u64,
    pub patch: u64,
}

/// A data-store schema version, `major.minor`.
#[derive(Clone, Copy, Debug, PartialEq, Eq, Structural)]
pub struct DVersion {
    pub major: u32,
    pub minor: u32,
}

/// A UTC instant: whole seconds since the Unix epoch and the nanoseconds past them.
#[derive(Clone, Copy, Debug, PartialEq, Eq, Structural)]
pub struct Timestamp {
    pub secs: i64,
    pub nanos: u32,
}

pub open spec fn version_lt(a: Version, b: Version) -> bool {
    a.major < b.major
        || (a.major == b.major && a.minor < b.minor)
        || (a.major == b.major && a.minor == b.minor && a.patch < b.patch)
}

pub open spec fn version_le(a: Version, b: Version) -> bool {
    version_lt(a, b) || a == b
}

/// The position of a data-store version on a single line: major first, then minor.
pub open spec fn dversion_rank(d: DVersion) -> int {
    d.major as int * 0x1_0000_0000 + d.minor as int
}

pub open spec fn dversion_le(a: DVersion, b: DVersion) -> bool {
    dversion_rank(a) <= dversion_rank(b)
}

pub open spec fn time_le(a: Timestamp, b: Timestamp) -> bool {
    a.secs < b.secs || (a.secs == b.secs && a.nanos <= b.nanos)
}

pub proof fn lemma_dversion_rank_injective(a: DVersion, b: DVersion)
    ensures
        dversion_rank(a) == dversion_rank(b) <==> a == b,
{
}

impl Version {
    pub fn new(major: u64, minor: u64, patch: u64) -> (r: Version)
        ensures
            r == (Version { major, minor, patch }),
    {
        Version { major, minor, patch }
    }

    pub fn lt(&self, other: &Version) -> (r: bool)
        ensures
            r == version_lt(*self, *other),
    {
        self.major < other.major || (self.major == other.major && self.minor < other.minor)
            || (self.major == other.major && self.minor == other.minor && self.patch
            < other.patch)
    }

    pub fn le(&self, other: &Version) -> (r: bool)
        ensures
            r == version_le(*self, *other),
    {
        self.lt(other) || (self.major == other.major && self.minor == other.minor && self.patch
            == other.patch)
    }

    pub fn same(&self, other: &Version) -> (r: bool)
        ensures
            r == (*self == *other),
    {
        self.major == other.major && self.minor == other.minor && self.patch == other.patch
    }
}

impl DVersion {
    pub fn new(major: u32, minor: u32) -> (r: DVersion)
        ensures
            r == (DVersion { major, minor }),
    {
        DVersion { major, minor }
    }

    pub fn le(&self, other: &DVersion) -> (r: bool)
        ensures
            r == dversion_le(*self, *other),
    {
        self.major < other.major || (self.major == other.major && self.minor <= other.minor)
    }

    pub fn same(&self, other: &DVersion) -> (r: bool)
        ensures
            r == (*self == *other),
    {
        self.major == other.major && self.minor == other.minor
    }
}

impl Timestamp {
    pub fn le(&self, other: &Timestamp) -> (r: bool)
        ensures
            r == time_le(*self, *other),
    {
        self.secs < other.secs || (self.secs == other.secs && self.nanos <= other.nanos)
    }
}

} // verus!
