use updog::args::parse_args;
use updog::flow::{first_step, gate, next_step, Command, Decision, Run, Step};
use updog::host::{release_identity, running_version, OsReleaseError};
use updog::manifest::Config;
use updog::version::{DVersion, Version};
use updog::error::UpdateError;
use updog::MAX_SEED;

fn strings(v: &[&str]) -> Vec<String> {
    v.iter().map(|s| s.to_string()).collect()
}

#[test]
fn os_release_in_any_order() {
    let lines = strings(&["NAME=Thar", "  VARIANT_ID=aws-k8s  ", "VERSION_ID=0.1.2", "VERSION_ID=9.9.9"]);
    let (v, f) = running_version(&lines).unwrap();
    assert_eq!(v, Version::new(0, 1, 2));
    assert_eq!(f, "aws-k8s");
}

#[test]
fn os_release_missing_or_bad() {
    let lines = strings(&["VERSION_ID=0.1.2"]);
    assert_eq!(running_version(&lines), Err(OsReleaseError::VersionIdNotFound));
    let lines = strings(&["VARIANT_ID=x"]);
    assert_eq!(running_version(&lines), Err(OsReleaseError::VersionIdNotFound));
    let lines = strings(&["  VERSION_ID=1.2 ", "VARIANT_ID=x"]);
    assert_eq!(
        running_version(&lines),
        Err(OsReleaseError::VersionIdParse { line: String::from("VERSION_ID=1.2") })
    );
    let lines = strings(&["VERSION_ID=one"]);
    assert_eq!(
        running_version(&lines),
        Err(OsReleaseError::VersionIdParse { line: String::from("VERSION_ID=one") })
    );
}

#[test]
fn version_text_parsing() {
    assert_eq!(Version::parse("1.25.0"), Some(Version::new(1, 25, 0)));
    assert_eq!(Version::parse("1.25"), None);
    assert_eq!(Version::parse("1.2.3-rc1"), None);
    assert_eq!(Version::parse(" 1.2.3 "), Some(Version::new(1, 2, 3)));
    assert_eq!(Version::parse("01.2.3"), None);
    assert_eq!(DVersion::parse("1.3"), Some(DVersion::new(1, 3)));
    assert_eq!(DVersion::parse("10.0"), Some(DVersion::new(10, 0)));
    assert_eq!(DVersion::parse("1"), None);
    assert_eq!(DVersion::parse("1.x"), None);
    assert_eq!(DVersion::parse(".1"), None);
    assert_eq!(DVersion::parse("1.2.3"), None);
    assert_eq!(DVersion::parse("4294967296.0"), None);
    assert_eq!(DVersion::parse("4294967295.7"), Some(DVersion::new(4294967295, 7)));
}

#[test]
fn command_line() {
    let a = parse_args(&strings(&["-v", "update", "--verbose", "-n", "-j", "-i", "1.13.0"])).unwrap();
    assert_eq!(a.subcommand, "update");
    assert_eq!(a.verbosity, 5);
    assert!(a.json);
    assert!(a.ignore_wave);
    assert_eq!(a.force_version, Some(Version::new(1, 13, 0)));
    let a = parse_args(&strings(&["check-update"])).unwrap();
    assert_eq!(a.verbosity, 3);
    assert!(!a.json && !a.ignore_wave && a.force_version.is_none());
    assert!(parse_args(&strings(&[])).is_none());
    assert!(parse_args(&strings(&["update", "check-update"])).is_none());
    assert!(parse_args(&strings(&["update", "--bogus"])).is_none());
    assert!(parse_args(&strings(&["update", "-i"])).is_none());
    assert!(parse_args(&strings(&["update", "-i", "x"])).is_none());
}

#[test]
fn subcommand_names() {
    assert_eq!(Command::parse(&String::from("check-update")), Some(Command::CheckUpdate));
    assert_eq!(Command::parse(&String::from("update")), Some(Command::Update));
    assert_eq!(Command::parse(&String::from("update-image")), Some(Command::UpdateImage));
    assert_eq!(Command::parse(&String::from("update-flags")), Some(Command::UpdateFlags));
    assert_eq!(Command::parse(&String::from("updates")), None);
}

#[test]
fn gate_decisions() {
    assert_eq!(gate(false, Ok(true), false), Ok(Decision::NoUpdate));
    assert_eq!(gate(true, Ok(false), false), Ok(Decision::LaterWave));
    assert_eq!(gate(true, Ok(false), true), Ok(Decision::Proceed));
    assert_eq!(gate(true, Ok(true), false), Ok(Decision::Proceed));
    assert_eq!(gate(true, Err(UpdateError::MissingSeed), true), Ok(Decision::Proceed));
    assert_eq!(gate(true, Err(UpdateError::NoWave), true), Ok(Decision::Proceed));
    assert_eq!(gate(true, Err(UpdateError::NoWave), false), Err(UpdateError::NoWave));
}

fn steps(run: &Run) -> Vec<Step> {
    let mut out = vec![first_step(run.command)];
    while *out.last().unwrap() != Step::Finish {
        out.push(next_step(run, *out.last().unwrap()));
    }
    out
}

#[test]
fn update_steps_in_order() {
    let run = Run { command: Command::Update, immediate: false, staged: true, delay: Some(30) };
    assert_eq!(
        steps(&run),
        vec![
            Step::StageImage,
            Step::FetchMigrations { staged: true },
            Step::Unmount,
            Step::Sleep { secs: 30 },
            Step::ClearInactive,
            Step::WriteRoot { from_staged: true },
            Step::WriteBoot,
            Step::WriteHash,
            Step::CommitFlags,
            Step::Finish,
        ]
    );
    let run = Run { command: Command::UpdateImage, immediate: true, staged: false, delay: Some(30) };
    assert_eq!(
        steps(&run),
        vec![
            Step::StageImage,
            Step::FetchMigrations { staged: false },
            Step::ClearInactive,
            Step::WriteRoot { from_staged: false },
            Step::WriteBoot,
            Step::WriteHash,
            Step::Finish,
        ]
    );
    let run = Run { command: Command::UpdateFlags, immediate: false, staged: false, delay: None };
    assert_eq!(steps(&run), vec![Step::CommitFlags, Step::Finish]);
    let run = Run { command: Command::CheckUpdate, immediate: false, staged: false, delay: None };
    assert_eq!(steps(&run), vec![Step::Finish]);
}

#[test]
fn seed_is_drawn_once() {
    let mut c = Config {
        metadata_base_url: String::from("foo"),
        target_base_url: String::from("bar"),
        seed: None,
    };
    assert!(c.ensure_seed());
    let s = c.seed.unwrap();
    assert!(s < MAX_SEED);
    assert!(!c.ensure_seed());
    assert_eq!(c.seed, Some(s));
    assert_eq!(c.metadata_base_url, "foo");
}

#[test]
fn identity_from_trimmed_lines() {
    let lines = strings(&["VARIANT_ID=aws-dev", "VERSION_ID=1.0.3", "VARIANT_ID=other"]);
    let (v, f) = release_identity(&lines).unwrap();
    assert_eq!(v, Version::new(1, 0, 3));
    assert_eq!(f, "aws-dev");
    let lines = strings(&[" VERSION_ID=1.0.3", "VARIANT_ID=aws-dev"]);
    assert_eq!(release_identity(&lines), Err(OsReleaseError::VersionIdNotFound));
}

#[test]
fn unicode_white_space_is_trimmed() {
    let lines = strings(&["\u{3000}VERSION_ID=2.0.1\u{a0}", "\tVARIANT_ID=dev\u{2028}"]);
    let (v, f) = running_version(&lines).unwrap();
    assert_eq!(v, Version::new(2, 0, 1));
    assert_eq!(f, "dev");
}
