use vstd::prelude::*;

use crate::version::{DVersion, Timestamp, Version};
use crate::waves::{has_seed, repeats_seed, schedule_wf, wave_error_holds, Wave, WaveError, Waves};
use crate::MAX_SEED;

verus! {

/// The names of the three targets that make up an image.
#[derive(Debug)]
pub struct Images {
    pub boot: String,
    pub root: String,
    pub hash: String,
}

/// The host's resolved configuration.
#[derive(Debug)]
pub struct Config {
    pub metadata_base_url: String,
    pub target_base_url: String,
    pub seed: Option<u64>,
}

/// One candidate release.
#[derive(Debug)]
pub struct Update {
    pub flavor: String,
    pub arch: String,
    pub version: Version,
    pub max_version: Version,
    pub waves: Waves,
    pub images: Images,
}

/// A release as it is written in a manifest, before its wave schedule is checked.
#[derive(Debug)]
pub struct UpdateRecord {
    pub flavor: String,
    pub arch: String,
    pub version: Version,
    pub max_version: Version,
    pub waves: Vec<Wave>,
    pub images: Images,
}

/// A migration edge: the artifacts that carry the data store from `from` to `to`.
#[derive(Debug)]
pub struct MigrationEdge {
    pub from: DVersion,
    pub to: DVersion,
    pub migrations: Vec<String>,
}

/// The data-store version that a release runs.
#[derive(Clone, Copy, Debug, PartialEq, Eq, Structural)]
pub struct DatastoreEntry {
    pub version: Version,
    pub dversion: DVersion,
}

/// The signed manifest: releases, the migration graph and the release-to-schema map.
#[derive(Debug)]
pub struct Manifest {
    pub updates: Vec<Update>,
    pub migrations: Vec<MigrationEdge>,
    pub datastore_versions: Vec<DatastoreEntry>,
}

/// The plain content of a release.
pub struct UpdateModel {
    pub flavor: Seq<char>,
    pub arch: Seq<char>,
    pub version: Version,
    pub max_version: Version,
    pub waves: Seq<Wave>,
    pub boot: Seq<char>,
    pub root: Seq<char>,
    pub hash: Seq<char>,
}

/// The plain content of a migration edge.
pub struct EdgeModel {
    pub from: DVersion,
    pub to: DVersion,
    pub migrations: Seq<Seq<char>>,
}

/// The plain content of a manifest.
pub struct ManifestModel {
    pub updates: Seq<UpdateModel>,
    pub migrations: Seq<EdgeModel>,
    pub datastore_versions: Seq<DatastoreEntry>,
}

/// Why a manifest was refused.
#[derive(Clone, Copy, Debug, PartialEq, Eq, Structural)]
pub enum ManifestError {
    SeedOutOfRange { seed: u64 },
    DuplicateSeed { seed: u64 },
    DuplicateMigration { from: DVersion, to: DVersion },
    DuplicateVersion { version: Version },
}

pub open spec fn names_view(v: Seq<String>) -> Seq<Seq<char>> {
    v.map_values(|s: String| s@)
}

impl View for Update {
    type V = UpdateModel;

    open spec fn view(&self) -> UpdateModel {
        UpdateModel {
            flavor: self.flavor@,
            arch: self.arch@,
            version: self.version,
            max_version: self.max_version,
            waves: self.waves@,
            boot: self.images.boot@,
            root: self.images.root@,
            hash: self.images.hash@,
        }
    }
}

impl View for UpdateRecord {
    type V = UpdateModel;

    open spec fn view(&self) -> UpdateModel {
        UpdateModel {
            flavor: self.flavor@,
            arch: self.arch@,
            version: self.version,
            max_version: self.max_version,
            waves: self.waves@,
            boot: self.images.boot@,
            root: self.images.root@,
            hash: self.images.hash@,
        }
    }
}

impl View for MigrationEdge {
    type V = EdgeModel;

    open spec fn view(&self) -> EdgeModel {
        EdgeModel { from: self.from, to: self.to, migrations: names_view(self.migrations@) }
    }
}

pub open spec fn updates_view(v: Seq<Update>) -> Seq<UpdateModel> {
    v.map_values(|u: Update| u@)
}

pub open spec fn records_view(v: Seq<UpdateRecord>) -> Seq<UpdateModel> {
    v.map_values(|u: UpdateRecord| u@)
}

pub open spec fn edges_view(v: Seq<MigrationEdge>) -> Seq<EdgeModel> {
    v.map_values(|e: MigrationEdge| e@)
}

impl View for Manifest {
    type V = ManifestModel;

    open spec fn view(&self) -> ManifestModel {
        ManifestModel {
            updates: updates_view(self.updates@),
            migrations: edges_view(self.migrations@),
            datastore_versions: self.datastore_versions@,
        }
    }
}

pub open spec fn edge_keys_unique(m: Seq<EdgeModel>) -> bool {
    forall|i: int, j: int|
        0 <= i < m.len() && 0 <= j < m.len() && i != j ==> !(m[i].from == m[j].from && m[i].to
            == m[j].to)
}

pub open spec fn versions_unique(d: Seq<DatastoreEntry>) -> bool {
    forall|i: int, j: int|
        0 <= i < d.len() && 0 <= j < d.len() && i != j ==> d[i].version != d[j].version
}

pub open spec fn schedules_wf(u: Seq<UpdateModel>) -> bool {
    forall|i: int| 0 <= i < u.len() ==> schedule_wf(#[trigger] u[i].waves)
}

/// What the manifest parser accepts: well-formed wave schedules, at most one edge for each
/// pair of data-store versions, at most one data-store version for each release.
pub open spec fn manifest_valid(m: ManifestModel) -> bool {
    &&& schedules_wf(m.updates)
    &&& edge_keys_unique(m.migrations)
    &&& versions_unique(m.datastore_versions)
}

/// What an error says of the records it was raised on.
pub open spec fn manifest_error_holds(m: ManifestModel, e: ManifestError) -> bool {
    match e {
        ManifestError::SeedOutOfRange { seed } => exists|i: int|
            0 <= i < m.updates.len() && seed >= MAX_SEED && has_seed(#[trigger] m.updates[i].waves, seed),
        ManifestError::DuplicateSeed { seed } => exists|i: int|
            0 <= i < m.updates.len() && repeats_seed(#[trigger] m.updates[i].waves, seed),
        ManifestError::DuplicateMigration { from, to } => exists|i: int, j: int|
            0 <= i < j < m.migrations.len() && m.migrations[i].from == from && m.migrations[i].to == to
                && m.migrations[j].from == from && m.migrations[j].to == to,
        ManifestError::DuplicateVersion { version } => exists|i: int, j: int|
            0 <= i < j < m.datastore_versions.len() && m.datastore_versions[i].version == version
                && m.datastore_versions[j].version == version,
    }
}

/// The manifest that a set of records decodes to, if any.
pub open spec fn decode_spec(m: ManifestModel) -> Option<ManifestModel> {
    if manifest_valid(m) {
        Some(m)
    } else {
        None
    }
}

/// Every manifest the parser accepts has, in each release, wave seeds below `MAX_SEED`
/// and no seed twice.
pub proof fn lemma_accepted_waves(records: ManifestModel, m: ManifestModel)
    requires
        decode_spec(records) == Some(m),
    ensures
        forall|i: int| 0 <= i < m.updates.len() ==> #[trigger] schedule_wf(m.updates[i].waves),
{
}

fn wave_error(e: WaveError) -> (r: ManifestError)
    ensures
        e matches WaveError::SeedOutOfRange { seed } ==> r == (ManifestError::SeedOutOfRange {
            seed,
        }),
        e matches WaveError::DuplicateSeed { seed } ==> r == (ManifestError::DuplicateSeed {
            seed,
        }),
{
    match e {
        WaveError::SeedOutOfRange { seed } => ManifestError::SeedOutOfRange { seed },
        WaveError::DuplicateSeed { seed } => ManifestError::DuplicateSeed { seed },
    }
}

fn check_edges(edges: &Vec<MigrationEdge>) -> (r: Result<(), ManifestError>)
    ensures
        r is Ok <==> edge_keys_unique(edges_view(edges@)),
        r matches Err(e) ==> e is DuplicateMigration && manifest_error_holds(
            ManifestModel { updates: Seq::empty(), migrations: edges_view(edges@), datastore_versions: Seq::empty() },
            e,
        ),
{
    let ghost m = edges_view(edges@);
    let mut k: usize = 0;
    while k < edges.len()
        invariant
            k <= edges@.len(),
            m == edges_view(edges@),
            edge_keys_unique(m.subrange(0, k as int)),
        decreases edges@.len() - k,
    {
        let mut j: usize = 0;
        while j < k
            invariant
                j <= k < edges@.len(),
                m == edges_view(edges@),
                forall|i: int| 0 <= i < j ==> !(m[i].from == m[k as int].from && m[i].to == m[k as int].to),
            decreases k - j,
        {
            if edges[j].from.same(&edges[k].from) && edges[j].to.same(&edges[k].to) {
                assert(m[j as int] == edges@[j as int]@ && m[k as int] == edges@[k as int]@);
                let ghost mm = ManifestModel {
                    updates: Seq::empty(),
                    migrations: m,
                    datastore_versions: Seq::empty(),
                };
                assert(manifest_error_holds(mm, ManifestError::DuplicateMigration { from: edges@[k as int].from, to: edges@[k as int].to })) by {
                    assert(0 <= j < k < mm.migrations.len() && mm.migrations[j as int].from == edges@[k as int].from
                        && mm.migrations[j as int].to == edges@[k as int].to && mm.migrations[k as int].from
                        == edges@[k as int].from && mm.migrations[k as int].to == edges@[k as int].to);
                }
                return Err(ManifestError::DuplicateMigration { from: edges[k].from, to: edges[k].to });
            }
            j = j + 1;
        }
        assert(edge_keys_unique(m.subrange(0, k + 1))) by {
            let s = m.subrange(0, k + 1);
            assert forall|a: int, b: int| 0 <= a < s.len() && 0 <= b < s.len() && a != b implies !(s[a].from == s[b].from && s[a].to == s[b].to) by {
                if a < k && b < k {
                    assert(s[a] == m.subrange(0, k as int)[a]);
                    assert(s[b] == m.subrange(0, k as int)[b]);
                }
            }
        }
        k = k + 1;
    }
    assert(m.subrange(0, k as int) == m);
    Ok(())
}

fn check_versions(entries: &Vec<DatastoreEntry>) -> (r: Result<(), ManifestError>)
    ensures
        r is Ok <==> versions_unique(entries@),
        r matches Err(e) ==> e is DuplicateVersion && manifest_error_holds(
            ManifestModel { updates: Seq::empty(), migrations: Seq::empty(), datastore_versions: entries@ },
            e,
        ),
{
    let ghost d = entries@;
    let mut k: usize = 0;
    while k < entries.len()
        invariant
            k <= d.len(),
            d == entries@,
            versions_unique(d.subrange(0, k as int)),
        decreases d.len() - k,
    {
        let mut j: usize = 0;
        while j < k
            invariant
                j <= k < d.len(),
                d == entries@,
                forall|i: int| 0 <= i < j ==> d[i].version != d[k as int].version,
            decreases k - j,
        {
            if entries[j].version.same(&entries[k].version) {
                let ghost mm = ManifestModel {
                    updates: Seq::empty(),
                    migrations: Seq::empty(),
                    datastore_versions: d,
                };
                assert(manifest_error_holds(mm, ManifestError::DuplicateVersion { version: entries@[k as int].version })) by {
                    assert(0 <= j < k < mm.datastore_versions.len() && mm.datastore_versions[j as int].version
                        == entries@[k as int].version && mm.datastore_versions[k as int].version == entries@[k as int].version);
                }
                return Err(ManifestError::DuplicateVersion { version: entries[k].version });
            }
            j = j + 1;
        }
        assert(versions_unique(d.subrange(0, k + 1))) by {
            let s = d.subrange(0, k + 1);
            assert forall|a: int, b: int| 0 <= a < s.len() && 0 <= b < s.len() && a != b implies s[a].version != s[b].version by {
                if a < k && b < k {
                    assert(s[a] == d.subrange(0, k as int)[a]);
                    assert(s[b] == d.subrange(0, k as int)[b]);
                }
            }
        }
        k = k + 1;
    }
    assert(d.subrange(0, k as int) == d);
    Ok(())
}

impl Manifest {
    /// Decodes a manifest from its records: each release's wave schedule, the migration
    /// edges and the data-store version map are checked, and kept in the order given.
    pub fn from_records(
        updates: Vec<UpdateRecord>,
        migrations: Vec<MigrationEdge>,
        datastore_versions: Vec<DatastoreEntry>,
    ) -> (r: Result<Manifest, ManifestError>)
        ensures
            ({
                let input = ManifestModel {
                    updates: records_view(updates@),
                    migrations: edges_view(migrations@),
                    datastore_versions: datastore_versions@,
                };
                match r {
                    Ok(m) => decode_spec(input) == Some(m@),
                    Err(e) => decode_spec(input) is None && manifest_error_holds(input, e),
                }
            }),
    {
        let ghost input = records_view(updates@);
        let mut rest = updates;
        let mut out: Vec<Update> = Vec::new();
        let ghost n = rest@.len();
        while rest.len() > 0
            invariant
                input == records_view(updates@),
                input.len() == n,
                out@.len() + rest@.len() == n,
                updates_view(out@) == input.subrange(0, out@.len() as int),
                records_view(rest@) == input.subrange(out@.len() as int, n as int),
                schedules_wf(updates_view(out@)),
            decreases rest@.len(),
        {
            let ghost before = rest@;
            let u = rest.remove(0);
            assert(records_view(before)[0] == u@);
            assert(input.subrange(out@.len() as int, n as int)[0] == input[out@.len() as int]);
            assert(input[out@.len() as int].waves == u.waves@);
            assert(records_view(rest@) =~= records_view(before).subrange(1, before.len() as int));
            let waves = match Waves::from_records(&u.waves) {
                Ok(w) => w,
                Err(e) => {
                    assert(!schedule_wf(input[out@.len() as int].waves));
                    assert(!schedules_wf(input));
                    let ghost i = out@.len() as int;
                    assert(input[i].waves == u.waves@);
                    return Err(wave_error(e));
                },
            };
            let UpdateRecord { flavor, arch, version, max_version, waves: _, images } = u;
            let ghost old_out = out@;
            out.push(Update { flavor, arch, version, max_version, waves, images });
            assert(updates_view(out@) =~= updates_view(old_out).push(input[old_out.len() as int]));
            assert(input.subrange(0, out@.len() as int) =~= input.subrange(0, old_out.len() as int).push(input[old_out.len() as int]));
        }
        assert(input.subrange(0, n as int) =~= input);
        match check_edges(&migrations) {
            Ok(()) => {},
            Err(e) => {
                return Err(e);
            },
        }
        match check_versions(&datastore_versions) {
            Ok(()) => {},
            Err(e) => {
                return Err(e);
            },
        }
        Ok(Manifest { updates: out, migrations, datastore_versions })
    }

    /// Encodes the manifest as its records, in the order it keeps them.
    pub fn into_records(self) -> (r: (Vec<UpdateRecord>, Vec<MigrationEdge>, Vec<DatastoreEntry>))
        ensures
            records_view(r.0@) == self@.updates,
            edges_view(r.1@) == self@.migrations,
            r.2@ == self@.datastore_versions,
    {
        let Manifest { updates, migrations, datastore_versions } = self;
        let ghost want = updates_view(updates@);
        let mut rest = updates;
        let mut out: Vec<UpdateRecord> = Vec::new();
        let ghost n = rest@.len();
        while rest.len() > 0
            invariant
                want.len() == n,
                out@.len() + rest@.len() == n,
                records_view(out@) == want.subrange(0, out@.len() as int),
                updates_view(rest@) == want.subrange(out@.len() as int, n as int),
            decreases rest@.len(),
        {
            let ghost before = rest@;
            let u = rest.remove(0);
            assert(updates_view(before)[0] == u@);
            assert(want.subrange(out@.len() as int, n as int)[0] == want[out@.len() as int]);
            assert(updates_view(rest@) =~= updates_view(before).subrange(1, before.len() as int));
            let waves = u.waves.entries();
            let Update { flavor, arch, version, max_version, waves: _, images } = u;
            let ghost old_out = out@;
            out.push(UpdateRecord { flavor, arch, version, max_version, waves, images });
            assert(records_view(out@) =~= records_view(old_out).push(want[old_out.len() as int]));
            assert(want.subrange(0, out@.len() as int) =~= want.subrange(0, old_out.len() as int).push(
                want[old_out.len() as int],
            ));
        }
        assert(want.subrange(0, n as int) =~= want);
        (out, migrations, datastore_versions)
    }

    /// The manifest is one the parser accepts: well-formed wave schedules and no repeated
    /// migration edge or release version. Every manifest that `from_records` returns is.
    pub open spec fn wf(&self) -> bool {
        manifest_valid(self@)
    }

    /// Encodes an accepted manifest as its records and decodes them again: the result is
    /// the manifest it started from.
    pub fn round_trip(self) -> (r: Result<Manifest, ManifestError>)
        requires
            self.wf(),
        ensures
            r matches Ok(m) && m@ == self@ && m.wf(),
    {
        let (updates, migrations, datastore_versions) = self.into_records();
        Manifest::from_records(updates, migrations, datastore_versions)
    }
}

} // verus!
