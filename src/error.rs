use vstd::prelude::*;

use crate::version::{DVersion, Version};

verus! {

/// Why a decision about an update could not be made.
#[derive(Clone, Copy, Debug, PartialEq, Eq, Structural)]
pub enum UpdateError {
    /// The configuration holds no seed.
    MissingSeed,
    /// The update defines no wave.
    NoWave,
    /// No update applies to this host.
    NoUpdate,
    /// The data-store version map has no entry for this release.
    MissingVersion { version: Version },
    /// No migration edge leads on from `current` towards `target`.
    MissingMigration { current: DVersion, target: DVersion },
    /// The walk towards `target` has taken as many steps as there are migration edges
    /// without reaching it, so it has come back to a version it left and would go round
    /// for ever; `current` is where it stands then.
    MigrationCycle { current: DVersion, target: DVersion },
}

} // verus!
