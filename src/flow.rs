use vstd::prelude::*;

use crate::error::UpdateError;

verus! {

/// What the agent was asked to do.
#[derive(Clone, Copy, Debug, PartialEq, Eq, Structural)]
pub enum Command {
    /// Report the update that applies, if any.
    CheckUpdate,
    /// Write the update to the inactive partitions and mark them bootable.
    Update,
    /// Write the update to the inactive partitions only.
    UpdateImage,
    /// Mark the inactive partitions bootable only.
    UpdateFlags,
}

pub open spec fn command_of(s: Seq<char>) -> Option<Command> {
    if s == "check-update"@ {
        Some(Command::CheckUpdate)
    } else if s == "update"@ {
        Some(Command::Update)
    } else if s == "update-image"@ {
        Some(Command::UpdateImage)
    } else if s == "update-flags"@ {
        Some(Command::UpdateFlags)
    } else {
        None
    }
}

impl Command {
    /// Reads a subcommand name.
    pub fn parse(s: &String) -> (r: Option<Command>)
        ensures
            r == command_of(s@),
    {
        if *s == "check-update".to_owned() {
            Some(Command::CheckUpdate)
        } else if *s == "update".to_owned() {
            Some(Command::Update)
        } else if *s == "update-image".to_owned() {
            Some(Command::UpdateImage)
        } else if *s == "update-flags".to_owned() {
            Some(Command::UpdateFlags)
        } else {
            None
        }
    }
}

/// What to do once an update has been selected and its wave checked.
#[derive(Clone, Copy, Debug, PartialEq, Eq, Structural)]
pub enum Decision {
    /// Nothing applies to this host.
    NoUpdate,
    /// An update applies, but the host's wave has not opened.
    LaterWave,
    /// Go on to write the update.
    Proceed,
}

/// Decides whether to go on with an update: `selected` says whether one applies, `ready`
/// what the wave check returned, `immediate` whether waves are to be ignored. Ignoring
/// waves ignores the wave check altogether, its errors included.
pub fn gate(selected: bool, ready: Result<bool, UpdateError>, immediate: bool) -> (r: Result<
    Decision,
    UpdateError,
>)
    ensures
        !selected ==> r == Ok::<Decision, UpdateError>(Decision::NoUpdate),
        selected && immediate ==> r == Ok::<Decision, UpdateError>(Decision::Proceed),
        selected && !immediate ==> match ready {
            Err(e) => r == Err::<Decision, UpdateError>(e),
            Ok(b) => r == Ok::<Decision, UpdateError>(
                if b {
                    Decision::Proceed
                } else {
                    Decision::LaterWave
                },
            ),
        },
{
    if !selected {
        return Ok(Decision::NoUpdate);
    }
    if immediate {
        return Ok(Decision::Proceed);
    }
    match ready {
        Err(e) => Err(e),
        Ok(b) => {
            if b {
                Ok(Decision::Proceed)
            } else {
                Ok(Decision::LaterWave)
            }
        },
    }
}

/// One step of writing an update.
#[derive(Clone, Copy, Debug, PartialEq, Eq, Structural)]
pub enum Step {
    /// Download the root image and mount it, best effort.
    StageImage,
    /// Copy or download each migration artifact.
    FetchMigrations { staged: bool },
    /// Unmount the staged image and detach its loop device, warning on failure.
    Unmount,
    /// Wait this many seconds.
    Sleep { secs: u64 },
    /// Mark the inactive partitions unbootable and persist that at once.
    ClearInactive,
    /// Write the root partition, from the staged image where there is one.
    WriteRoot { from_staged: bool },
    /// Write the boot partition.
    WriteBoot,
    /// Write the hash partition.
    WriteHash,
    /// Mark the inactive partitions bootable.
    CommitFlags,
    /// Nothing is left to do.
    Finish,
}

/// The facts a run of the agent goes by.
#[derive(Clone, Copy, Debug, PartialEq, Eq, Structural)]
pub struct Run {
    pub command: Command,
    /// Waves and jitter are ignored.
    pub immediate: bool,
    /// The root image was staged and mounted.
    pub staged: bool,
    /// How long to wait before writing, if at all.
    pub delay: Option<u64>,
}

pub open spec fn first_spec(command: Command) -> Step {
    match command {
        Command::CheckUpdate => Step::Finish,
        Command::UpdateFlags => Step::CommitFlags,
        _ => Step::StageImage,
    }
}

pub open spec fn before_clear(run: Run) -> Step {
    match run.delay {
        Some(d) if !run.immediate => Step::Sleep { secs: d },
        _ => Step::ClearInactive,
    }
}

/// The step that follows `done` in a run.
pub open spec fn next_spec(run: Run, done: Step) -> Step {
    match done {
        Step::StageImage => Step::FetchMigrations { staged: run.staged },
        Step::FetchMigrations { .. } => if run.staged {
            Step::Unmount
        } else {
            before_clear(run)
        },
        Step::Unmount => before_clear(run),
        Step::Sleep { .. } => Step::ClearInactive,
        Step::ClearInactive => Step::WriteRoot { from_staged: run.staged },
        Step::WriteRoot { .. } => Step::WriteBoot,
        Step::WriteBoot => Step::WriteHash,
        Step::WriteHash => if run.command == Command::Update {
            Step::CommitFlags
        } else {
            Step::Finish
        },
        Step::CommitFlags => Step::Finish,
        Step::Finish => Step::Finish,
    }
}

/// The first step of a command that has passed its gate.
pub fn first_step(command: Command) -> (r: Step)
    ensures
        r == first_spec(command),
{
    match command {
        Command::CheckUpdate => Step::Finish,
        Command::UpdateFlags => Step::CommitFlags,
        _ => Step::StageImage,
    }
}

/// The step to take once `done` has succeeded.
pub fn next_step(run: &Run, done: Step) -> (r: Step)
    ensures
        r == next_spec(*run, done),
{
    let wait = match run.delay {
        Some(d) => {
            if !run.immediate {
                Step::Sleep { secs: d }
            } else {
                Step::ClearInactive
            }
        },
        None => Step::ClearInactive,
    };
    match done {
        Step::StageImage => Step::FetchMigrations { staged: run.staged },
        Step::FetchMigrations { .. } => {
            if run.staged {
                Step::Unmount
            } else {
                wait
            }
        },
        Step::Unmount => wait,
        Step::Sleep { .. } => Step::ClearInactive,
        Step::ClearInactive => Step::WriteRoot { from_staged: run.staged },
        Step::WriteRoot { .. } => Step::WriteBoot,
        Step::WriteBoot => Step::WriteHash,
        Step::WriteHash => {
            if run.command == Command::Update {
                Step::CommitFlags
            } else {
                Step::Finish
            }
        },
        Step::CommitFlags => Step::Finish,
        Step::Finish => Step::Finish,
    }
}

/// No partition is written but right after the inactive set has been marked unbootable
/// or after another partition write, so the inactive set is never bootable while it is
/// being written.
pub proof fn lemma_clear_before_write(run: Run, done: Step)
    ensures
        next_spec(run, done) is WriteRoot ==> done is ClearInactive,
        next_spec(run, done) is WriteBoot ==> done is WriteRoot,
        next_spec(run, done) is WriteHash ==> done is WriteBoot,
{
}

/// Within an update, the flags are committed only for `update`, and only once every
/// partition has been written.
pub proof fn lemma_commit_after_writes(run: Run, done: Step)
    ensures
        next_spec(run, done) is CommitFlags ==> run.command == Command::Update && done is WriteHash,
{
}

} // verus!
