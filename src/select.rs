use vstd::prelude::*;

use crate::error::UpdateError;
use crate::manifest::{Config, Manifest, Update, UpdateModel};
use crate::outside::{now, random_in};
use crate::version::{version_le, version_lt, Timestamp, Version};
use crate::MAX_SEED;
use crate::waves::{jitter_spec, ready_spec};

verus! {

/// Whether a host with this configuration may apply `u` at `now`.
pub open spec fn update_ready_spec(u: UpdateModel, seed: Option<u64>, now: Timestamp) -> Result<
    bool,
    UpdateError,
> {
    match seed {
        None => Err(UpdateError::MissingSeed),
        Some(s) => match ready_spec(u.waves, s, now) {
            Some(b) => Ok(b),
            None => Err(UpdateError::NoWave),
        },
    }
}

/// A release that may be offered to a host of `flavor` on `arch`: it matches both and its
/// version does not exceed its own ceiling.
pub open spec fn is_candidate(u: UpdateModel, flavor: Seq<char>, arch: Seq<char>) -> bool {
    u.flavor == flavor && u.arch == arch && version_le(u.version, u.max_version)
}

/// A candidate that moves a host at `current`: an upgrade, or a recovery from above the
/// release's ceiling.
pub open spec fn admits(u: UpdateModel, current: Version) -> bool {
    version_lt(current, u.version) || version_lt(u.max_version, current)
}

impl Update {
    /// Whether this host may apply the update at `now`: the host's wave has started, or,
    /// for a seed below every wave, the last wave has started.
    pub fn update_ready_at(&self, config: &Config, now: &Timestamp) -> (r: Result<bool, UpdateError>)
        ensures
            r == update_ready_spec(self@, config.seed, *now),
    {
        match config.seed {
            Some(seed) => match self.waves.ready_at(seed, now) {
                Some(b) => Ok(b),
                None => Err(UpdateError::NoWave),
            },
            None => Err(UpdateError::MissingSeed),
        }
    }

    /// Whether this host may apply the update now.
    pub fn update_ready(&self, config: &Config) -> (r: Result<bool, UpdateError>)
        ensures
            config.seed is None ==> r == Err::<bool, UpdateError>(UpdateError::MissingSeed),
            config.seed is Some ==> (r == Err::<bool, UpdateError>(UpdateError::NoWave) <==> self@.waves.len() == 0),
            exists|t: Timestamp| r == update_ready_spec(self@, config.seed, t),
    {
        let t = now();
        self.update_ready_at(config, &t)
    }

    /// The spread, in seconds, over which the host delays an update that its wave
    /// admitted at `now`.
    pub fn jitter_at(&self, config: &Config, now: &Timestamp) -> (r: Option<u64>)
        ensures
            r == self.jitter_spec_at(config.seed, *now),
    {
        match config.seed {
            Some(seed) => self.waves.jitter_at(seed, now),
            None => None,
        }
    }

    /// The spread, in seconds, over which the host delays this update now.
    pub fn jitter(&self, config: &Config) -> (r: Option<u64>)
        ensures
            config.seed is None ==> r is None,
            exists|t: Timestamp| r == self.jitter_spec_at(config.seed, t),
    {
        let t = now();
        let r = self.jitter_at(config, &t);
        assert(r == self.jitter_spec_at(config.seed, t));
        r
    }

    /// The jitter of this update for a host with `seed` at `now`.
    pub open spec fn jitter_spec_at(&self, seed: Option<u64>, now: Timestamp) -> Option<u64> {
        match seed {
            Some(s) => jitter_spec(self@.waves, s, now),
            None => None,
        }
    }
}


impl Config {
    /// Gives the configuration a seed drawn from `[0, MAX_SEED)` where it has none; returns
    /// whether it did, so that the caller can persist the new value.
    pub fn ensure_seed(&mut self) -> (generated: bool)
        ensures
            final(self).metadata_base_url@ == old(self).metadata_base_url@,
            final(self).target_base_url@ == old(self).target_base_url@,
            generated == old(self).seed is None,
            old(self).seed is Some ==> final(self).seed == old(self).seed,
            old(self).seed is None ==> (final(self).seed matches Some(s) && s < MAX_SEED),
    {
        match self.seed {
            Some(_) => false,
            None => {
                self.seed = Some(random_in(0, MAX_SEED));
                true
            },
        }
    }
}

/// How long to wait before writing an update, in seconds, given its jitter: a value drawn
/// from `[1, jitter)`, or none where that range is empty.
pub fn delay_for(jitter: Option<u64>) -> (r: Option<u64>)
    ensures
        match jitter {
            Some(j) if j > 1 => r matches Some(d) && 1 <= d < j,
            _ => r is None,
        },
{
    match jitter {
        Some(j) => {
            if j > 1 {
                Some(random_in(1, j))
            } else {
                None
            }
        },
        None => None,
    }
}

/// What selection returns for a host at `current` from the releases `us`.
pub open spec fn selection(
    us: Seq<UpdateModel>,
    current: Version,
    flavor: Seq<char>,
    arch: Seq<char>,
    force_version: Option<Version>,
    r: Option<usize>,
) -> bool {
    match force_version {
        Some(f) => match r {
            Some(i) => i < us.len() && is_candidate(us[i as int], flavor, arch) && us[i as int].version
                == f && forall|j: int|
                0 <= j < i ==> !(is_candidate(us[j], flavor, arch) && us[j].version == f),
            None => forall|j: int|
                0 <= j < us.len() ==> !(is_candidate(us[j], flavor, arch) && us[j].version == f),
        },
        None => match r {
            Some(i) => i < us.len() && is_candidate(us[i as int], flavor, arch) && admits(
                us[i as int],
                current,
            ) && (forall|j: int|
                0 <= j < us.len() && is_candidate(us[j], flavor, arch) && admits(us[j], current)
                    ==> version_le(us[j].version, us[i as int].version)) && (forall|j: int|
                0 <= j < i && is_candidate(us[j], flavor, arch) && admits(us[j], current)
                    ==> version_lt(us[j].version, us[i as int].version)),
            None => forall|j: int|
                0 <= j < us.len() ==> !(is_candidate(us[j], flavor, arch) && admits(us[j], current)),
        },
    }
}

/// Whatever selection returns matches the host's flavor and architecture and does not
/// exceed its own ceiling.
pub proof fn lemma_selected_matches_host(
    us: Seq<UpdateModel>,
    current: Version,
    flavor: Seq<char>,
    arch: Seq<char>,
    force_version: Option<Version>,
    r: Option<usize>,
)
    requires
        selection(us, current, flavor, arch, force_version, r),
        r is Some,
    ensures
        us[r->0 as int].flavor == flavor,
        us[r->0 as int].arch == arch,
        version_le(us[r->0 as int].version, us[r->0 as int].max_version),
{
}

/// Where some candidate is newer than the running version, selection without a forced
/// version returns an update, and none of those candidates is newer than it.
pub proof fn lemma_upgrade_found(
    us: Seq<UpdateModel>,
    current: Version,
    flavor: Seq<char>,
    arch: Seq<char>,
    r: Option<usize>,
    j: int,
)
    requires
        selection(us, current, flavor, arch, None, r),
        0 <= j < us.len(),
        is_candidate(us[j], flavor, arch),
        version_lt(current, us[j].version),
    ensures
        r is Some,
        version_lt(current, us[r->0 as int].version),
        forall|k: int|
            0 <= k < us.len() && is_candidate(us[k], flavor, arch) && version_lt(current, us[k].version)
                ==> version_le(us[k].version, us[r->0 as int].version),
{
    assert(admits(us[j], current));
}

/// Chooses the update to apply to a host running `version` of `flavor` on `arch`: the
/// forced version when one is given, else the newest candidate that either upgrades the
/// host or recovers it from above that candidate's ceiling, the first of them where
/// several share that version. Returns its index in
/// `manifest.updates`.
pub fn update_required(
    _config: &Config,
    manifest: &Manifest,
    version: &Version,
    flavor: &String,
    arch: &String,
    force_version: Option<Version>,
) -> (r: Option<usize>)
    ensures
        selection(manifest@.updates, *version, flavor@, arch@, force_version, r),
{
    let us = &manifest.updates;
    let ghost m = manifest@.updates;
    let mut best: Option<usize> = None;
    let mut k: usize = 0;
    while k < us.len()
        invariant
            k <= us@.len(),
            m == manifest@.updates,
            us == &manifest.updates,
            m.len() == us@.len(),
            forall|j: int| 0 <= j < us@.len() ==> m[j] == #[trigger] us@[j]@,
            match force_version {
                Some(f) => best is None && forall|j: int|
                    0 <= j < k ==> !(is_candidate(m[j], flavor@, arch@) && m[j].version == f),
                None => match best {
                    Some(b) => b < k && is_candidate(m[b as int], flavor@, arch@) && admits(
                        m[b as int],
                        *version,
                    ) && (forall|j: int|
                        0 <= j < k && is_candidate(m[j], flavor@, arch@) && admits(m[j], *version)
                            ==> version_le(m[j].version, m[b as int].version)) && (forall|j: int|
                        0 <= j < b && is_candidate(m[j], flavor@, arch@) && admits(m[j], *version)
                            ==> version_lt(m[j].version, m[b as int].version)),
                    None => forall|j: int|
                        0 <= j < k ==> !(is_candidate(m[j], flavor@, arch@) && admits(
                            m[j],
                            *version,
                        )),
                },
            },
        decreases us@.len() - k,
    {
        let u = &us[k];
        assert(m[k as int] == u@);
        let candidate = u.flavor == *flavor && u.arch == *arch && u.version.le(&u.max_version);
        if candidate {
            match &force_version {
                Some(f) => {
                    if u.version.same(f) {
                        return Some(k);
                    }
                },
                None => {
                    if version.lt(&u.version) || u.max_version.lt(version) {
                        match best {
                            Some(b) => {
                                if us[b].version.lt(&u.version) {
                                    best = Some(k);
                                }
                            },
                            None => {
                                best = Some(k);
                            },
                        }
                    }
                },
            }
        }
        k = k + 1;
    }
    best
}

} // verus!
