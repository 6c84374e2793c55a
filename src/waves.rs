use vstd::prelude::*;

use crate::version::{time_le, Timestamp};
use crate::MAX_SEED;

verus! {

/// One entry of a rollout schedule: hosts whose seed is at least `seed` (and below the
/// next entry's seed) may update from `start` on.
#[derive(Clone, Copy, Debug, PartialEq, Eq, Structural)]
pub struct Wave {
    pub seed: u64,
    pub start: Timestamp,
}

/// Why a wave schedule was refused.
#[derive(Clone, Copy, Debug, PartialEq, Eq, Structural)]
pub enum WaveError {
    SeedOutOfRange { seed: u64 },
    DuplicateSeed { seed: u64 },
}

/// A rollout schedule: a map from seed to start time, kept in the order it was given.
#[derive(Debug)]
pub struct Waves {
    entries: Vec<Wave>,
}

pub open spec fn keys_unique(s: Seq<Wave>) -> bool {
    forall|i: int, j: int| 0 <= i < s.len() && 0 <= j < s.len() && i != j ==> s[i].seed != s[j].seed
}

pub open spec fn seeds_in_range(s: Seq<Wave>) -> bool {
    forall|i: int| 0 <= i < s.len() ==> s[i].seed < MAX_SEED
}

pub open spec fn schedule_wf(s: Seq<Wave>) -> bool {
    keys_unique(s) && seeds_in_range(s)
}

pub open spec fn has_seed(s: Seq<Wave>, seed: u64) -> bool {
    exists|i: int| 0 <= i < s.len() && s[i].seed == seed
}

/// Two entries share `seed`.
pub open spec fn repeats_seed(s: Seq<Wave>, seed: u64) -> bool {
    exists|i: int, j: int| 0 <= i < j < s.len() && s[i].seed == seed && s[j].seed == seed
}

/// What an error says of the schedule it was raised on.
pub open spec fn wave_error_holds(s: Seq<Wave>, e: WaveError) -> bool {
    match e {
        WaveError::SeedOutOfRange { seed } => seed >= MAX_SEED && has_seed(s, seed),
        WaveError::DuplicateSeed { seed } => repeats_seed(s, seed),
    }
}

/// `i` is the entry with the greatest key at most `seed`.
pub open spec fn is_prev(s: Seq<Wave>, seed: u64, i: int) -> bool {
    &&& 0 <= i < s.len()
    &&& s[i].seed <= seed
    &&& forall|j: int| 0 <= j < s.len() && s[j].seed <= seed ==> s[j].seed <= s[i].seed
}

/// `i` is the entry with the greatest key.
pub open spec fn is_last(s: Seq<Wave>, i: int) -> bool {
    &&& 0 <= i < s.len()
    &&& forall|j: int| 0 <= j < s.len() ==> s[j].seed <= s[i].seed
}

/// `i` is the entry with the least key above `seed` and below `MAX_SEED`.
pub open spec fn is_next(s: Seq<Wave>, seed: u64, i: int) -> bool {
    &&& 0 <= i < s.len()
    &&& seed < s[i].seed < MAX_SEED
    &&& forall|j: int| 0 <= j < s.len() && seed < s[j].seed < MAX_SEED ==> s[i].seed <= s[j].seed
}

/// Whether a host with `seed` may update at `now`; `None` when no wave is defined.
pub open spec fn ready_spec(s: Seq<Wave>, seed: u64, now: Timestamp) -> Option<bool> {
    if exists|i: int| is_prev(s, seed, i) {
        let i = choose|i: int| is_prev(s, seed, i);
        Some(time_le(s[i].start, now))
    } else if s.len() > 0 {
        let i = choose|i: int| is_last(s, i);
        Some(time_le(s[i].start, now))
    } else {
        None
    }
}

/// Seconds from `a` to `b`, or zero where `b` is not after `a`.
pub open spec fn gap(a: i64, b: i64) -> u64 {
    if b - a <= 0 {
        0
    } else {
        (b - a) as u64
    }
}

/// The spread over which a host in the middle of an open wave delays its update.
pub open spec fn jitter_spec(s: Seq<Wave>, seed: u64, now: Timestamp) -> Option<u64> {
    if (exists|p: int| is_prev(s, seed, p)) && (exists|n: int| is_next(s, seed, n)) {
        let p = choose|p: int| is_prev(s, seed, p);
        let n = choose|n: int| is_next(s, seed, n);
        if !time_le(s[n].start, now) {
            Some(gap(s[p].start.secs, s[n].start.secs))
        } else {
            None
        }
    } else {
        None
    }
}

proof fn lemma_prev_unique(s: Seq<Wave>, seed: u64, i: int, j: int)
    requires
        keys_unique(s),
        is_prev(s, seed, i),
        is_prev(s, seed, j),
    ensures
        i == j,
{
}

proof fn lemma_last_unique(s: Seq<Wave>, i: int, j: int)
    requires
        keys_unique(s),
        is_last(s, i),
        is_last(s, j),
    ensures
        i == j,
{
    assert(s[i].seed <= s[j].seed);
    assert(s[j].seed <= s[i].seed);
}

proof fn lemma_next_unique(s: Seq<Wave>, seed: u64, i: int, j: int)
    requires
        keys_unique(s),
        is_next(s, seed, i),
        is_next(s, seed, j),
    ensures
        i == j,
{
}

impl View for Waves {
    type V = Seq<Wave>;

    closed spec fn view(&self) -> Seq<Wave> {
        self.entries@
    }
}

impl Waves {
    #[verifier::type_invariant]
    spec fn inv(&self) -> bool {
        schedule_wf(self.entries@)
    }

    pub fn new() -> (r: Waves)
        ensures
            r@ == Seq::<Wave>::empty(),
    {
        Waves { entries: Vec::new() }
    }

    pub fn len(&self) -> (r: usize)
        ensures
            r == self@.len(),
    {
        self.entries.len()
    }

    /// The entries in the order they are kept.
    pub fn entries(&self) -> (r: Vec<Wave>)
        ensures
            r@ == self@,
            schedule_wf(r@),
    {
        proof {
            use_type_invariant(self);
        }
        self.entries.clone()
    }

    /// Sets the start time of the wave at `seed`, replacing the time a wave there had.
    pub fn insert(&mut self, seed: u64, start: Timestamp)
        requires
            seed < MAX_SEED,
        ensures
            has_seed(old(self)@, seed) ==> final(self)@.len() == old(self)@.len() && forall|i: int|
                0 <= i < old(self)@.len() ==> final(self)@[i] == (if old(self)@[i].seed == seed {
                    Wave { seed, start }
                } else {
                    old(self)@[i]
                }),
            !has_seed(old(self)@, seed) ==> final(self)@ == old(self)@.push(Wave { seed, start }),
    {
        proof {
            use_type_invariant(&*self);
        }
        let pos = self.position(seed);
        let mut entries: Vec<Wave> = Vec::new();
        std::mem::swap(&mut entries, &mut self.entries);
        let ghost before = entries@;
        match pos {
            Some(k) => {
                entries.set(k, Wave { seed, start });
                assert(has_seed(before, seed));
                assert forall|i: int| 0 <= i < before.len() implies entries@[i] == (if before[i].seed
                    == seed {
                    Wave { seed, start }
                } else {
                    before[i]
                }) by {
                    if before[i].seed == seed && i != k {
                        assert(before[i].seed != before[k as int].seed);
                    }
                }
            },
            None => {
                entries.push(Wave { seed, start });
            },
        }
        self.entries = entries;
    }

    fn position(&self, seed: u64) -> (r: Option<usize>)
        ensures
            match r {
                Some(k) => k < self@.len() && self@[k as int].seed == seed,
                None => !has_seed(self@, seed),
            },
    {
        let mut k: usize = 0;
        while k < self.entries.len()
            invariant
                k <= self.entries@.len(),
                forall|j: int| 0 <= j < k ==> self.entries@[j].seed != seed,
            decreases self.entries@.len() - k,
        {
            if self.entries[k].seed == seed {
                return Some(k);
            }
            k = k + 1;
        }
        None
    }

    /// Builds a schedule from its records, refusing an out-of-range or repeated seed.
    pub fn from_records(records: &Vec<Wave>) -> (r: Result<Waves, WaveError>)
        ensures
            match r {
                Ok(w) => w@ == records@,
                Err(e) => !schedule_wf(records@) && wave_error_holds(records@, e),
            },
            schedule_wf(records@) <==> r is Ok,
    {
        let mut out: Vec<Wave> = Vec::new();
        let mut k: usize = 0;
        while k < records.len()
            invariant
                k <= records@.len(),
                out@ == records@.subrange(0, k as int),
                schedule_wf(out@),
            decreases records@.len() - k,
        {
            let w = records[k];
            if w.seed >= MAX_SEED {
                assert(records@[k as int].seed >= MAX_SEED);
                return Err(WaveError::SeedOutOfRange { seed: w.seed });
            }
            let mut j: usize = 0;
            while j < out.len()
                invariant
                    j <= out@.len(),
                    k < records@.len(),
                    w == records@[k as int],
                    out@ == records@.subrange(0, k as int),
                    forall|m: int| 0 <= m < j ==> out@[m].seed != w.seed,
                decreases out@.len() - j,
            {
                if out[j].seed == w.seed {
                    assert(records@[j as int] == out@[j as int]);
                    assert(records@[j as int].seed == records@[k as int].seed);
                    assert(repeats_seed(records@, w.seed));
                    return Err(WaveError::DuplicateSeed { seed: w.seed });
                }
                j = j + 1;
            }
            out.push(w);
            k = k + 1;
        }
        assert(out@ == records@);
        Ok(Waves { entries: out })
    }

    fn prev_index(&self, seed: u64) -> (r: Option<usize>)
        ensures
            match r {
                Some(i) => is_prev(self@, seed, i as int),
                None => !exists|i: int| is_prev(self@, seed, i),
            },
    {
        let mut best: Option<usize> = None;
        let mut k: usize = 0;
        while k < self.entries.len()
            invariant
                k <= self@.len(),
                match best {
                    Some(b) => b < k && self@[b as int].seed <= seed && forall|j: int|
                        0 <= j < k && self@[j].seed <= seed ==> self@[j].seed <= self@[b as int].seed,
                    None => forall|j: int| 0 <= j < k ==> self@[j].seed > seed,
                },
            decreases self@.len() - k,
        {
            let s = self.entries[k].seed;
            if s <= seed {
                match best {
                    Some(b) => {
                        if s > self.entries[b].seed {
                            best = Some(k);
                        }
                    },
                    None => {
                        best = Some(k);
                    },
                }
            }
            k = k + 1;
        }
        best
    }

    fn last_index(&self) -> (r: Option<usize>)
        ensures
            match r {
                Some(i) => is_last(self@, i as int),
                None => self@.len() == 0,
            },
    {
        if self.entries.len() == 0 {
            return None;
        }
        let mut best: usize = 0;
        let mut k: usize = 1;
        while k < self.entries.len()
            invariant
                1 <= k <= self@.len(),
                best < k,
                forall|j: int| 0 <= j < k ==> self@[j].seed <= self@[best as int].seed,
            decreases self@.len() - k,
        {
            if self.entries[k].seed > self.entries[best].seed {
                best = k;
            }
            k = k + 1;
        }
        Some(best)
    }

    fn next_index(&self, seed: u64) -> (r: Option<usize>)
        ensures
            match r {
                Some(i) => is_next(self@, seed, i as int),
                None => !exists|i: int| is_next(self@, seed, i),
            },
    {
        let mut best: Option<usize> = None;
        let mut k: usize = 0;
        while k < self.entries.len()
            invariant
                k <= self@.len(),
                match best {
                    Some(b) => b < k && seed < self@[b as int].seed < MAX_SEED && forall|j: int|
                        0 <= j < k && seed < self@[j].seed < MAX_SEED ==> self@[b as int].seed
                            <= self@[j].seed,
                    None => forall|j: int| 0 <= j < k ==> !(seed < #[trigger] self@[j].seed < MAX_SEED),
                },
            decreases self@.len() - k,
        {
            let s = self.entries[k].seed;
            if seed < s && s < MAX_SEED {
                match best {
                    Some(b) => {
                        if s < self.entries[b].seed {
                            best = Some(k);
                        }
                    },
                    None => {
                        best = Some(k);
                    },
                }
            }
            k = k + 1;
        }
        best
    }

    /// Whether a host with `seed` may update at `now`: its own wave has started, or, for a
    /// seed below every key, the last wave has started. `None` when no wave is defined.
    pub fn ready_at(&self, seed: u64, now: &Timestamp) -> (r: Option<bool>)
        ensures
            r == ready_spec(self@, seed, *now),
    {
        proof {
            use_type_invariant(self);
        }
        match self.prev_index(seed) {
            Some(i) => {
                proof {
                    let c = choose|c: int| is_prev(self@, seed, c);
                    lemma_prev_unique(self@, seed, i as int, c);
                }
                Some(self.entries[i].start.le(now))
            },
            None => match self.last_index() {
                Some(i) => {
                    proof {
                        let c = choose|c: int| is_last(self@, c);
                        lemma_last_unique(self@, i as int, c);
                    }
                    Some(self.entries[i].start.le(now))
                },
                None => None,
            },
        }
    }

    /// The number of seconds between the host's wave and the next one, while the next
    /// one has not started yet.
    pub fn jitter_at(&self, seed: u64, now: &Timestamp) -> (r: Option<u64>)
        ensures
            r == jitter_spec(self@, seed, *now),
    {
        proof {
            use_type_invariant(self);
        }
        let prev = self.prev_index(seed);
        let next = self.next_index(seed);
        match (prev, next) {
            (Some(p), Some(n)) => {
                proof {
                    let cp = choose|c: int| is_prev(self@, seed, c);
                    lemma_prev_unique(self@, seed, p as int, cp);
                    let cn = choose|c: int| is_next(self@, seed, c);
                    lemma_next_unique(self@, seed, n as int, cn);
                }
                if !self.entries[n].start.le(now) {
                    let a = self.entries[p].start.secs;
                    let b = self.entries[n].start.secs;
                    if b <= a {
                        Some(0)
                    } else {
                        let d: i128 = b as i128 - a as i128;
                        Some(d as u64)
                    }
                } else {
                    None
                }
            },
            _ => None,
        }
    }
}

} // verus!
