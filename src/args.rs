use vstd::prelude::*;

use crate::host::{lines_view, version_of};
use crate::version::Version;

verus! {

/// The options and subcommand given on the command line.
#[derive(Debug)]
pub struct Arguments {
    pub subcommand: String,
    pub verbosity: usize,
    pub json: bool,
    pub ignore_wave: bool,
    pub force_version: Option<Version>,
}

/// What has been read of the command line so far: subcommand, verbosity, json, ignore
/// waves, forced version.
pub type ArgState = (Option<Seq<char>>, int, bool, bool, Option<Version>);

pub open spec fn is_flag(a: Seq<char>, short: Seq<char>, long: Seq<char>) -> bool {
    a == short || a == long
}

/// Reads the remaining arguments `args` on from `st`; `None` where they are not a valid
/// command line.
pub open spec fn scan_args(args: Seq<Seq<char>>, st: ArgState) -> Option<ArgState>
    decreases args.len(),
{
    if args.len() == 0 {
        Some(st)
    } else {
        let a = args[0];
        let rest = args.drop_first();
        if is_flag(a, "-v"@, "--verbose"@) {
            scan_args(rest, (st.0, st.1 + 1, st.2, st.3, st.4))
        } else if is_flag(a, "-i"@, "--image"@) {
            if args.len() < 2 {
                None
            } else {
                match version_of(args[1]) {
                    Some(v) => scan_args(args.subrange(2, args.len() as int), (st.0, st.1, st.2, st.3, Some(v))),
                    None => None,
                }
            }
        } else if is_flag(a, "-n"@, "--now"@) {
            scan_args(rest, (st.0, st.1, st.2, true, st.4))
        } else if is_flag(a, "-j"@, "--json"@) {
            scan_args(rest, (st.0, st.1, true, st.3, st.4))
        } else if a.len() == 0 || a[0] != '-' {
            if st.0 is Some {
                None
            } else {
                scan_args(rest, (Some(a), st.1, st.2, st.3, st.4))
            }
        } else {
            None
        }
    }
}

/// The arguments a command line (without the program's name) gives: verbosity starts at
/// 3 and each `-v` raises it; exactly one subcommand is required.
pub open spec fn args_spec(args: Seq<Seq<char>>) -> Option<ArgState> {
    match scan_args(args, (None, 3, false, false, None)) {
        Some(st) => if st.0 is Some {
            Some(st)
        } else {
            None
        },
        None => None,
    }
}

fn is_word(a: &String, w: &str) -> (r: bool)
    ensures
        r == (a@ == w@),
{
    *a == w.to_owned()
}

fn starts_with_dash(a: &String) -> (r: bool)
    ensures
        r == (a@.len() > 0 && a@[0] == '-'),
{
    let mut it = a.as_str().chars();
    match it.next() {
        Some(c) => c == '-',
        None => false,
    }
}

/// Reads the command line, the program's name left out; `None` where it is malformed:
/// an unknown option, `-i` without a version, two subcommands or none.
pub fn parse_args(args: &Vec<String>) -> (r: Option<Arguments>)
    requires
        args@.len() < usize::MAX - 3,
    ensures
        match args_spec(lines_view(args@)) {
            Some(st) => r matches Some(a) && st.0 == Some(a.subcommand@) && st.1 == a.verbosity
                && st.2 == a.json && st.3 == a.ignore_wave && st.4 == a.force_version,
            None => r is None,
        },
{
    let ghost all = lines_view(args@);
    let mut subcommand: Option<String> = None;
    let mut verbosity: usize = 3;
    let mut json = false;
    let mut ignore_wave = false;
    let mut force_version: Option<Version> = None;
    let mut i: usize = 0;
    assert(all.subrange(0, all.len() as int) =~= all);
    while i < args.len()
        invariant
            i <= args@.len() < usize::MAX - 3,
            all == lines_view(args@),
            verbosity <= 3 + i,
            scan_args(all, (None, 3, false, false, None)) == scan_args(
                all.subrange(i as int, all.len() as int),
                (
                    match subcommand {
                        Some(s) => Some(s@),
                        None => None,
                    },
                    verbosity as int,
                    json,
                    ignore_wave,
                    force_version,
                ),
            ),
        decreases args@.len() - i,
    {
        let ghost rest = all.subrange(i as int, all.len() as int);
        assert(rest[0] == args@[i as int]@);
        assert(rest.drop_first() =~= all.subrange(i + 1, all.len() as int));
        let a = &args[i];
        if is_word(a, "-v") || is_word(a, "--verbose") {
            verbosity = verbosity + 1;
            i = i + 1;
        } else if is_word(a, "-i") || is_word(a, "--image") {
            if i + 1 >= args.len() {
                return None;
            }
            assert(rest[1] == args@[i + 1]@);
            assert(rest.subrange(2, rest.len() as int) =~= all.subrange(i + 2, all.len() as int));
            match Version::parse(args[i + 1].as_str()) {
                Some(v) => {
                    force_version = Some(v);
                },
                None => {
                    return None;
                },
            }
            i = i + 2;
        } else if is_word(a, "-n") || is_word(a, "--now") {
            ignore_wave = true;
            i = i + 1;
        } else if is_word(a, "-j") || is_word(a, "--json") {
            json = true;
            i = i + 1;
        } else if !starts_with_dash(a) {
            if subcommand.is_some() {
                return None;
            }
            subcommand = Some(a.clone());
            i = i + 1;
        } else {
            return None;
        }
    }
    assert(all.subrange(i as int, all.len() as int).len() == 0);
    match subcommand {
        Some(s) => Some(Arguments { subcommand: s, verbosity, json, ignore_wave, force_version }),
        None => None,
    }
}

} // verus!
