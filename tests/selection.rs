use updog::error::UpdateError;
use updog::manifest::{
    Config, DatastoreEntry, Images, Manifest, ManifestError, MigrationEdge, Update, UpdateRecord,
};
use updog::plan::{datastore_version, migration_targets, required_migrations};
use updog::select::{delay_for, update_required};
use updog::version::{DVersion, Timestamp, Version};
use updog::waves::{Wave, Waves};

fn config(seed: Option<u64>) -> Config {
    Config {
        metadata_base_url: String::from("foo"),
        target_base_url: String::from("bar"),
        seed,
    }
}

fn images() -> Images {
    Images {
        boot: String::from("boot"),
        root: String::from("root"),
        hash: String::from("hash"),
    }
}

fn from_now(hours: i64) -> Timestamp {
    let t = chrono::Utc::now() + chrono::Duration::hours(hours);
    Timestamp {
        secs: t.timestamp(),
        nanos: t.timestamp_subsec_nanos(),
    }
}

fn at(secs: i64) -> Timestamp {
    Timestamp { secs, nanos: 0 }
}

fn v(major: u64, minor: u64, patch: u64) -> Version {
    Version::new(major, minor, patch)
}

fn dv(major: u32, minor: u32) -> DVersion {
    DVersion::new(major, minor)
}

fn empty_update() -> Update {
    Update {
        flavor: String::from("thar"),
        arch: String::from("test"),
        version: v(1, 0, 0),
        max_version: v(1, 1, 0),
        waves: Waves::new(),
        images: images(),
    }
}

fn record(flavor: &str, arch: &str, version: Version, max_version: Version) -> UpdateRecord {
    UpdateRecord {
        flavor: flavor.to_string(),
        arch: arch.to_string(),
        version,
        max_version,
        waves: vec![Wave { seed: 0, start: at(1_500_000_000) }],
        images: images(),
    }
}

fn edge(from: DVersion, to: DVersion, names: &[&str]) -> MigrationEdge {
    MigrationEdge {
        from,
        to,
        migrations: names.iter().map(|n| n.to_string()).collect(),
    }
}

fn manifest(updates: Vec<UpdateRecord>, edges: Vec<MigrationEdge>, map: Vec<DatastoreEntry>) -> Manifest {
    Manifest::from_records(updates, edges, map).unwrap()
}

fn multiple() -> Manifest {
    manifest(
        vec![
            record("thar-aws-eks", "x86_64", v(1, 11, 0), v(1, 20, 0)),
            record("thar-aws-eks", "x86_64", v(1, 13, 0), v(1, 20, 0)),
            record("thar-aws-eks", "x86_64", v(1, 15, 0), v(1, 20, 0)),
            record("thar-aws-eks", "aarch64", v(1, 16, 0), v(1, 20, 0)),
            record("thar-other", "x86_64", v(1, 17, 0), v(1, 20, 0)),
        ],
        vec![],
        vec![],
    )
}

#[test]
fn test_manifest_json() {
    let m = manifest(
        vec![record("thar", "x86_64", v(1, 11, 0), v(1, 11, 0))],
        vec![
            edge(dv(1, 0), dv(1, 1), &["migrate_1.1_foo"]),
            edge(dv(1, 1), dv(1, 2), &["migrate_1.2_bar"]),
        ],
        vec![
            DatastoreEntry { version: v(1, 11, 0), dversion: dv(1, 0) },
            DatastoreEntry { version: v(1, 12, 0), dversion: dv(1, 1) },
        ],
    );
    assert!(m.updates.len() > 0, "Failed to parse update manifest");
    assert!(m.migrations.len() > 0, "Failed to parse migrations");
    let e = m
        .migrations
        .iter()
        .find(|e| e.from == dv(1, 0) && e.to == dv(1, 1))
        .unwrap();
    assert!(e.migrations[0] == "migrate_1.1_foo");
    assert!(m.datastore_versions.len() > 0, "Failed to parse version map");
    assert_eq!(datastore_version(&m, &v(1, 11, 0)), Some(dv(1, 0)));
}

#[test]
fn test_update_ready() {
    let config = config(Some(123));
    let mut update = empty_update();
    assert!(update.update_ready(&config).is_err(), "Imaginary wave chosen");

    update.waves.insert(1024, from_now(1));
    let result = update.update_ready(&config);
    assert_eq!(result, Ok(false), "Incorrect wave chosen");

    update.waves.insert(0, from_now(-1));
    let result = update.update_ready(&config);
    assert_eq!(result, Ok(true), "Update wave missed");
}

#[test]
fn test_final_wave() {
    let config = config(Some(512));
    let mut update = empty_update();
    update.waves.insert(0, from_now(-3));
    update.waves.insert(256, from_now(-2));
    update.waves.insert(512, from_now(-1));
    assert_eq!(update.update_ready(&config), Ok(true), "All waves passed but no update");
}

#[test]
fn ready_without_seed_or_wave() {
    let update = empty_update();
    assert_eq!(update.update_ready_at(&config(None), &at(0)), Err(UpdateError::MissingSeed));
    assert_eq!(update.update_ready_at(&config(Some(5)), &at(0)), Err(UpdateError::NoWave));
}

#[test]
fn seed_below_first_wave_waits_for_last() {
    let mut update = empty_update();
    update.waves.insert(100, at(1000));
    update.waves.insert(200, at(2000));
    let c = config(Some(50));
    assert_eq!(update.update_ready_at(&c, &at(1500)), Ok(false));
    assert_eq!(update.update_ready_at(&c, &at(2000)), Ok(true));
    let c = config(Some(150));
    assert_eq!(update.update_ready_at(&c, &at(999)), Ok(false));
    assert_eq!(update.update_ready_at(&c, &at(1000)), Ok(true));
}

#[test]
fn jitter_spans_to_next_wave() {
    let mut update = empty_update();
    update.waves.insert(0, at(1000));
    update.waves.insert(1024, at(4600));
    let c = config(Some(123));
    assert_eq!(update.jitter_at(&c, &at(2000)), Some(3600));
    assert_eq!(update.jitter_at(&c, &at(4600)), None);
    assert_eq!(update.jitter_at(&config(Some(1500)), &at(2000)), None);
    assert_eq!(update.jitter_at(&config(None), &at(2000)), None);
}

#[test]
fn jitter_never_negative() {
    let mut update = empty_update();
    update.waves.insert(0, at(5000));
    update.waves.insert(1024, at(4000));
    assert_eq!(update.jitter_at(&config(Some(123)), &at(3000)), Some(0));
}

#[test]
fn delay_lies_in_range() {
    assert_eq!(delay_for(None), None);
    assert_eq!(delay_for(Some(1)), None);
    assert_eq!(delay_for(Some(2)), Some(1));
    let d = delay_for(Some(10)).unwrap();
    assert!(1 <= d && d < 10);
}

#[test]
fn test_versions() {
    let m = manifest(
        vec![
            record("thar-aws-eks", "x86_64", v(1, 21, 0), v(1, 20, 0)),
            record("thar-aws-eks", "x86_64", v(1, 25, 0), v(1, 20, 0)),
            record("thar-aws-eks", "x86_64", v(1, 30, 0), v(1, 20, 0)),
        ],
        vec![],
        vec![],
    );
    let version = v(1, 25, 0);
    let flavor = String::from("thar-aws-eks");
    let arch = String::from("x86_64");
    assert!(
        update_required(&config(Some(123)), &m, &version, &flavor, &arch, None).is_none(),
        "Updog tried to exceed max_version"
    );
}

#[test]
fn recovery_below_ceiling() {
    let m = manifest(
        vec![
            record("thar-aws-eks", "x86_64", v(1, 15, 0), v(1, 20, 0)),
            record("thar-aws-eks", "x86_64", v(1, 18, 0), v(1, 20, 0)),
        ],
        vec![],
        vec![],
    );
    let r = update_required(
        &config(Some(1)),
        &m,
        &v(1, 22, 0),
        &String::from("thar-aws-eks"),
        &String::from("x86_64"),
        None,
    );
    assert_eq!(m.updates[r.unwrap()].version, v(1, 18, 0));
}

#[test]
fn test_multiple() {
    let m = multiple();
    let version = v(1, 10, 0);
    let flavor = String::from("thar-aws-eks");
    let arch = String::from("x86_64");
    let result = update_required(&config(Some(123)), &m, &version, &flavor, &arch, None);
    assert!(result.is_some(), "Updog failed to find an update");
    assert!(m.updates[result.unwrap()].version == v(1, 15, 0), "Incorrect version");
}

#[test]
fn force_update_version() {
    let m = multiple();
    let version = v(1, 10, 0);
    let flavor = String::from("thar-aws-eks");
    let arch = String::from("x86_64");
    let result = update_required(&config(Some(123)), &m, &version, &flavor, &arch, Some(v(1, 13, 0)));
    assert!(result.is_some(), "Updog failed to find an update");
    assert!(m.updates[result.unwrap()].version == v(1, 13, 0), "Incorrect version");
    let none = update_required(&config(Some(123)), &m, &version, &flavor, &arch, Some(v(1, 14, 0)));
    assert!(none.is_none());
}

#[test]
fn bad_bound() {
    let mut r = record("thar", "x86_64", v(1, 0, 0), v(1, 0, 0));
    r.waves = vec![Wave { seed: 0, start: at(1) }, Wave { seed: 2048, start: at(2) }];
    let e = Manifest::from_records(vec![r], vec![], vec![]).unwrap_err();
    assert_eq!(e, ManifestError::SeedOutOfRange { seed: 2048 });
}

#[test]
fn duplicate_bound() {
    let mut r = record("thar", "x86_64", v(1, 0, 0), v(1, 0, 0));
    r.waves = vec![Wave { seed: 5, start: at(1) }, Wave { seed: 5, start: at(2) }];
    let e = Manifest::from_records(vec![r], vec![], vec![]).unwrap_err();
    assert_eq!(e, ManifestError::DuplicateSeed { seed: 5 });
}

#[test]
fn duplicate_migration_and_version() {
    let e = Manifest::from_records(
        vec![],
        vec![edge(dv(1, 0), dv(1, 1), &["a"]), edge(dv(1, 0), dv(1, 1), &["b"])],
        vec![],
    )
    .unwrap_err();
    assert_eq!(e, ManifestError::DuplicateMigration { from: dv(1, 0), to: dv(1, 1) });
    let e = Manifest::from_records(
        vec![],
        vec![],
        vec![
            DatastoreEntry { version: v(1, 0, 0), dversion: dv(1, 0) },
            DatastoreEntry { version: v(1, 0, 0), dversion: dv(1, 1) },
        ],
    )
    .unwrap_err();
    assert_eq!(e, ManifestError::DuplicateVersion { version: v(1, 0, 0) });
}

#[test]
fn serialize_metadata() {
    let m = manifest(
        vec![record("thar", "x86_64", v(1, 11, 0), v(1, 12, 0))],
        vec![edge(dv(1, 0), dv(1, 1), &["migrate_1.1_foo"])],
        vec![DatastoreEntry { version: v(1, 11, 0), dversion: dv(1, 0) }],
    );
    let (updates, edges, map) = m.into_records();
    assert_eq!(updates[0].waves, vec![Wave { seed: 0, start: at(1_500_000_000) }]);
    let again = Manifest::from_records(updates, edges, map).unwrap().round_trip().unwrap();
    assert_eq!(again.updates[0].version, v(1, 11, 0));
    assert_eq!(again.migrations[0].migrations, vec![String::from("migrate_1.1_foo")]);
    assert_eq!(again.datastore_versions[0].dversion, dv(1, 0));
}

#[test]
fn test_migrations() {
    let m = manifest(
        vec![],
        vec![
            edge(dv(1, 0), dv(1, 1), &["migration_1.1_a", "migration_1.1_b"]),
            edge(dv(1, 1), dv(1, 2), &["migration_1.2_a"]),
            edge(dv(1, 2), dv(1, 3), &["migration_1.3_a"]),
            edge(dv(1, 1), dv(1, 3), &["migration_1.3_shortcut"]),
        ],
        vec![],
    );
    let targets = migration_targets(&dv(1, 0), &dv(1, 3), &m).unwrap();
    assert!(targets.len() == 3);
    let mut i = targets.iter();
    assert!(i.next().unwrap() == "migration_1.1_a");
    assert!(i.next().unwrap() == "migration_1.1_b");
    assert!(i.next().unwrap() == "migration_1.3_shortcut");
}

#[test]
fn shortcut_edge_preferred() {
    let m = manifest(
        vec![],
        vec![
            edge(dv(1, 0), dv(1, 1), &["a", "b"]),
            edge(dv(1, 0), dv(1, 2), &["c"]),
            edge(dv(1, 2), dv(1, 3), &["d"]),
            edge(dv(1, 1), dv(1, 3), &["shortcut"]),
        ],
        vec![],
    );
    let up = migration_targets(&dv(1, 0), &dv(1, 3), &m).unwrap();
    assert_eq!(up, vec![String::from("c"), String::from("d")]);
    let down = migration_targets(&dv(1, 3), &dv(1, 0), &m).unwrap();
    assert_eq!(down, up);
    assert_eq!(migration_targets(&dv(1, 2), &dv(1, 2), &m).unwrap(), Vec::<String>::new());
}

#[test]
fn missing_migration_reported() {
    let m = manifest(vec![], vec![edge(dv(1, 0), dv(1, 1), &["a"])], vec![]);
    assert_eq!(
        migration_targets(&dv(1, 0), &dv(1, 3), &m),
        Err(UpdateError::MissingMigration { current: dv(1, 1), target: dv(1, 3) })
    );
}

#[test]
fn migrations_between_releases() {
    let m = manifest(
        vec![],
        vec![edge(dv(1, 0), dv(1, 1), &["a"])],
        vec![
            DatastoreEntry { version: v(1, 0, 0), dversion: dv(1, 0) },
            DatastoreEntry { version: v(1, 1, 0), dversion: dv(1, 1) },
            DatastoreEntry { version: v(1, 1, 1), dversion: dv(1, 1) },
        ],
    );
    assert_eq!(required_migrations(&m, &v(1, 0, 0), &v(1, 1, 0)), Ok(vec![String::from("a")]));
    assert_eq!(required_migrations(&m, &v(1, 1, 1), &v(1, 0, 0)), Ok(vec![String::from("a")]));
    assert_eq!(required_migrations(&m, &v(1, 1, 0), &v(1, 1, 1)), Ok(vec![]));
    assert_eq!(
        required_migrations(&m, &v(2, 0, 0), &v(1, 1, 0)),
        Err(UpdateError::MissingVersion { version: v(2, 0, 0) })
    );
    assert_eq!(
        required_migrations(&m, &v(1, 0, 0), &v(3, 0, 0)),
        Err(UpdateError::MissingVersion { version: v(3, 0, 0) })
    );
}

#[test]
fn equal_versions_pick_the_first() {
    let mut first = record("thar", "x86_64", v(1, 2, 0), v(1, 5, 0));
    first.images.boot = String::from("first");
    let mut second = record("thar", "x86_64", v(1, 2, 0), v(1, 5, 0));
    second.images.boot = String::from("second");
    let m = manifest(vec![record("thar", "x86_64", v(1, 1, 0), v(1, 5, 0)), first, second], vec![], vec![]);
    let r = update_required(
        &config(Some(1)),
        &m,
        &v(1, 0, 0),
        &String::from("thar"),
        &String::from("x86_64"),
        None,
    );
    assert_eq!(r, Some(1));
    assert_eq!(m.updates[1].images.boot, "first");
}

#[test]
fn walk_takes_a_step_back() {
    let m = manifest(
        vec![],
        vec![
            edge(dv(1, 0), dv(1, 2), &["x"]),
            edge(dv(1, 2), dv(1, 1), &["y"]),
            edge(dv(1, 1), dv(1, 3), &["z"]),
        ],
        vec![],
    );
    let names = migration_targets(&dv(1, 0), &dv(1, 3), &m).unwrap();
    assert_eq!(names, vec![String::from("x"), String::from("y"), String::from("z")]);
    assert_eq!(migration_targets(&dv(1, 3), &dv(1, 0), &m).unwrap(), names);
}

#[test]
fn walk_stuck_after_a_step_back() {
    let m = manifest(
        vec![],
        vec![edge(dv(1, 0), dv(1, 2), &["x"]), edge(dv(1, 2), dv(1, 1), &["y"])],
        vec![],
    );
    assert_eq!(
        migration_targets(&dv(1, 0), &dv(1, 3), &m),
        Err(UpdateError::MissingMigration { current: dv(1, 1), target: dv(1, 3) })
    );
}

#[test]
fn walk_in_a_cycle_is_refused() {
    let m = manifest(
        vec![],
        vec![edge(dv(1, 0), dv(1, 2), &["x"]), edge(dv(1, 2), dv(1, 0), &["y"])],
        vec![],
    );
    assert_eq!(
        migration_targets(&dv(1, 0), &dv(1, 3), &m),
        Err(UpdateError::MigrationCycle { current: dv(1, 0), target: dv(1, 3) })
    );
}
