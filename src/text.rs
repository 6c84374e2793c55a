use vstd::prelude::*;

use crate::version::{DVersion, Version};

verus! {

pub open spec fn is_digit(c: char) -> bool {
    '0' <= c <= '9'
}

pub open spec fn all_digits(s: Seq<char>) -> bool {
    forall|i: int| 0 <= i < s.len() ==> is_digit(#[trigger] s[i])
}

/// The number that a run of decimal digits writes.
pub open spec fn digits_value(s: Seq<char>) -> nat
    decreases s.len(),
{
    if s.len() == 0 {
        0
    } else {
        digits_value(s.drop_last()) * 10 + (s.last() as nat - '0' as nat) as nat
    }
}

/// The `u32` that text writes in decimal, if it is one.
pub open spec fn number_of(s: Seq<char>) -> Option<u32> {
    if s.len() > 0 && all_digits(s) && digits_value(s) <= u32::MAX {
        Some(digits_value(s) as u32)
    } else {
        None
    }
}

/// `p` is the dot between the two numbers of a data-store version.
pub open spec fn is_split(s: Seq<char>, p: int) -> bool {
    &&& 0 <= p < s.len()
    &&& s[p] == '.'
    &&& number_of(s.subrange(0, p)) is Some
    &&& number_of(s.subrange(p + 1, s.len() as int)) is Some
}

/// The data-store version that text writes as `major.minor`, if any.
pub open spec fn dversion_of(s: Seq<char>) -> Option<DVersion> {
    if exists|p: int| is_split(s, p) {
        let p = choose|p: int| is_split(s, p);
        Some(
            DVersion {
                major: number_of(s.subrange(0, p))->0,
                minor: number_of(s.subrange(p + 1, s.len() as int))->0,
            },
        )
    } else {
        None
    }
}

/// The `u64` that text writes in decimal without a leading zero (`0` itself aside).
pub open spec fn decimal_u64(s: Seq<char>) -> Option<u64> {
    if s.len() > 0 && all_digits(s) && (s.len() == 1 || s[0] != '0') && digits_value(s)
        <= u64::MAX {
        Some(digits_value(s) as u64)
    } else {
        None
    }
}

/// `p` and `q` are the two dots of a version written `major.minor.patch`.
pub open spec fn is_plain_split(s: Seq<char>, p: int, q: int) -> bool {
    &&& 0 <= p < q < s.len()
    &&& s[p] == '.'
    &&& s[q] == '.'
    &&& decimal_u64(s.subrange(0, p)) is Some
    &&& decimal_u64(s.subrange(p + 1, q)) is Some
    &&& decimal_u64(s.subrange(q + 1, s.len() as int)) is Some
}

/// The three numbers of text written `major.minor.patch` in decimal, with nothing else.
pub open spec fn plain_version(s: Seq<char>) -> Option<Version> {
    if exists|p: int, q: int| is_plain_split(s, p, q) {
        let (p, q) = choose|p: int, q: int| is_plain_split(s, p, q);
        Some(
            Version {
                major: decimal_u64(s.subrange(0, p))->0,
                minor: decimal_u64(s.subrange(p + 1, q))->0,
                patch: decimal_u64(s.subrange(q + 1, s.len() as int))->0,
            },
        )
    } else {
        None
    }
}

proof fn lemma_digits_grow(s: Seq<char>, i: int)
    requires
        0 <= i <= s.len(),
        all_digits(s),
    ensures
        digits_value(s.subrange(0, i)) <= digits_value(s),
    decreases s.len() - i,
{
    if i < s.len() {
        let t = s.subrange(0, i + 1);
        assert(t.drop_last() =~= s.subrange(0, i));
        assert(is_digit(s[i]));
        lemma_digits_grow(s, i + 1);
    } else {
        assert(s.subrange(0, i) =~= s);
    }
}

fn number_in(s: &Vec<char>, lo: usize, hi: usize) -> (r: Option<u32>)
    requires
        lo <= hi <= s@.len(),
    ensures
        r == number_of(s@.subrange(lo as int, hi as int)),
{
    let ghost t = s@.subrange(lo as int, hi as int);
    if lo == hi {
        return None;
    }
    let mut val: u64 = 0;
    let mut i: usize = lo;
    while i < hi
        invariant
            lo <= i <= hi <= s@.len(),
            t == s@.subrange(lo as int, hi as int),
            all_digits(s@.subrange(lo as int, i as int)),
            val == digits_value(s@.subrange(lo as int, i as int)),
            val <= u32::MAX,
        decreases hi - i,
    {
        let c = s[i];
        let ghost u = s@.subrange(lo as int, i + 1);
        assert(u.drop_last() =~= s@.subrange(lo as int, i as int));
        if !('0' <= c && c <= '9') {
            assert(t[i - lo] == c);
            return None;
        }
        let d = (c as u32 - '0' as u32) as u64;
        let next = val * 10 + d;
        assert(all_digits(u));
        if next > 0xffff_ffff {
            proof {
                assert(t.subrange(0, i + 1 - lo) =~= u);
                if all_digits(t) {
                    lemma_digits_grow(t, i + 1 - lo);
                }
            }
            return None;
        }
        val = next;
        i = i + 1;
    }
    Some(val as u32)
}

impl DVersion {
    /// Reads a data-store version written `major.minor` in decimal.
    pub fn parse(s: &str) -> (r: Option<DVersion>)
        ensures
            r == dversion_of(s@),
    {
        let cs = crate::host::chars_of(s);
        let mut p: usize = 0;
        while p < cs.len() && cs[p] != '.'
            invariant
                p <= cs@.len(),
                cs@ == s@,
                forall|j: int| 0 <= j < p ==> cs@[j] != '.',
            decreases cs@.len() - p,
        {
            p = p + 1;
        }
        if p == cs.len() {
            assert(!exists|q: int| is_split(s@, q));
            return None;
        }
        let major = number_in(&cs, 0, p);
        let minor = number_in(&cs, p + 1, cs.len());
        proof {
            assert forall|q: int| is_split(s@, q) implies q == p by {
                if q > p {
                    assert(s@.subrange(0, q)[p as int] == '.');
                } else if q < p {
                    assert(cs@[q] != '.');
                }
            }
        }
        match (major, minor) {
            (Some(a), Some(b)) => {
                assert(is_split(s@, p as int));
                Some(DVersion { major: a, minor: b })
            },
            _ => None,
        }
    }
}

} // verus!
