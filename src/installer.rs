use vstd::prelude::*;

use crate::models::ToolError;

verus! {

/// Where an installation of one milestone stands.
#[derive(Debug, Clone, Copy, PartialEq, Eq, Structural)]
pub enum InstallPhase {
    /// Nothing done yet.
    Begin,
    /// The data directories are being created.
    PreparingDirectories,
    /// Waiting to learn whether the version directory exists.
    CheckingInstalled,
    /// Waiting to learn whether the archive is already cached.
    CheckingCache,
    /// The archive has been requested.
    Requesting,
    /// The archive body is being written to the cache.
    Saving,
    /// The archive is being unpacked into the version directory.
    Extracting,
    /// The version directory is being searched for the executable.
    Verifying,
    /// The version directory is being removed after a failed extraction or
    /// verification; `cause` is the failure reported once it is gone.
    RollingBack { cause: ToolError },
    /// The cached archive is being removed after a committed install.
    CleaningUp,
    /// The installation has ended.
    Done,
}

/// What the outside world reports after an action.
#[derive(Debug, Clone, Copy)]
pub enum InstallEvent {
    Started,
    DirectoriesReady(Result<(), ToolError>),
    Installed(bool),
    Cached(bool),
    /// The HTTP status of the archive request, or why no answer came.
    Responded(Result<u16, ToolError>),
    Saved(Result<(), ToolError>),
    Extracted(Result<(), ToolError>),
    ExecutableFound(bool),
    RolledBack(Result<(), ToolError>),
    CleanedUp,
}

/// What the outside world is asked to do next.
#[derive(Debug, Clone, Copy)]
pub enum InstallAction {
    /// Create the versions, cache and profiles directories.
    EnsureDirectories,
    /// Report whether the version directory exists.
    CheckInstalled,
    /// Report whether the cached archive exists.
    CheckCache,
    /// Request the archive from its download address.
    Download,
    /// Write the response body to the cached archive.
    SaveArchive,
    /// Unpack the cached archive into the version directory.
    Extract,
    /// Search the version directory for the executable.
    FindExecutable,
    /// Remove the version directory.
    RemoveVersion,
    /// Remove the cached archive; a failure there is ignored.
    RemoveCachedArchive,
    /// Stop, with this outcome.
    Finish(Result<(), ToolError>),
}

/// Whether an HTTP status is a success.
pub open spec fn is_success_status(status: u16) -> bool {
    200 <= status && status <= 299
}

/// Whether `event` answers the action that `phase` waits on.
pub open spec fn answers(phase: InstallPhase, event: InstallEvent) -> bool {
    match (phase, event) {
        (InstallPhase::Begin, InstallEvent::Started) => true,
        (InstallPhase::PreparingDirectories, InstallEvent::DirectoriesReady(_)) => true,
        (InstallPhase::CheckingInstalled, InstallEvent::Installed(_)) => true,
        (InstallPhase::CheckingCache, InstallEvent::Cached(_)) => true,
        (InstallPhase::Requesting, InstallEvent::Responded(_)) => true,
        (InstallPhase::Saving, InstallEvent::Saved(_)) => true,
        (InstallPhase::Extracting, InstallEvent::Extracted(_)) => true,
        (InstallPhase::Verifying, InstallEvent::ExecutableFound(_)) => true,
        (InstallPhase::RollingBack { .. }, InstallEvent::RolledBack(_)) => true,
        (InstallPhase::CleaningUp, InstallEvent::CleanedUp) => true,
        _ => false,
    }
}

/// The install sequence: from a phase and the event that answers it, the
/// next phase and what to do. Pairs outside `answers` are not part of it.
pub open spec fn install_next(phase: InstallPhase, event: InstallEvent) -> (InstallPhase, InstallAction) {
    match (phase, event) {
        (InstallPhase::Begin, InstallEvent::Started) =>
            (InstallPhase::PreparingDirectories, InstallAction::EnsureDirectories),
        (InstallPhase::PreparingDirectories, InstallEvent::DirectoriesReady(Ok(()))) =>
            (InstallPhase::CheckingInstalled, InstallAction::CheckInstalled),
        (InstallPhase::PreparingDirectories, InstallEvent::DirectoriesReady(Err(e))) =>
            (InstallPhase::Done, InstallAction::Finish(Err(e))),
        (InstallPhase::CheckingInstalled, InstallEvent::Installed(true)) =>
            (InstallPhase::Done, InstallAction::Finish(Ok(()))),
        (InstallPhase::CheckingInstalled, InstallEvent::Installed(false)) =>
            (InstallPhase::CheckingCache, InstallAction::CheckCache),
        (InstallPhase::CheckingCache, InstallEvent::Cached(true)) =>
            (InstallPhase::Extracting, InstallAction::Extract),
        (InstallPhase::CheckingCache, InstallEvent::Cached(false)) =>
            (InstallPhase::Requesting, InstallAction::Download),
        (InstallPhase::Requesting, InstallEvent::Responded(Err(e))) =>
            (InstallPhase::Done, InstallAction::Finish(Err(e))),
        (InstallPhase::Requesting, InstallEvent::Responded(Ok(status))) =>
            if is_success_status(status) {
                (InstallPhase::Saving, InstallAction::SaveArchive)
            } else {
                (InstallPhase::Done, InstallAction::Finish(Err(ToolError::NetworkFailure { status })))
            },
        (InstallPhase::Saving, InstallEvent::Saved(Ok(()))) =>
            (InstallPhase::Extracting, InstallAction::Extract),
        (InstallPhase::Saving, InstallEvent::Saved(Err(e))) =>
            (InstallPhase::Done, InstallAction::Finish(Err(e))),
        (InstallPhase::Extracting, InstallEvent::Extracted(Ok(()))) =>
            (InstallPhase::Verifying, InstallAction::FindExecutable),
        (InstallPhase::Extracting, InstallEvent::Extracted(Err(e))) =>
            (InstallPhase::RollingBack { cause: e }, InstallAction::RemoveVersion),
        (InstallPhase::Verifying, InstallEvent::ExecutableFound(true)) =>
            (InstallPhase::CleaningUp, InstallAction::RemoveCachedArchive),
        (InstallPhase::Verifying, InstallEvent::ExecutableFound(false)) =>
            (InstallPhase::RollingBack { cause: ToolError::VerificationFailure }, InstallAction::RemoveVersion),
        (InstallPhase::RollingBack { cause }, InstallEvent::RolledBack(Ok(()))) =>
            (InstallPhase::Done, InstallAction::Finish(Err(cause))),
        (InstallPhase::RollingBack { .. }, InstallEvent::RolledBack(Err(e))) =>
            (InstallPhase::Done, InstallAction::Finish(Err(e))),
        (InstallPhase::CleaningUp, InstallEvent::CleanedUp) =>
            (InstallPhase::Done, InstallAction::Finish(Ok(()))),
        _ => (phase, InstallAction::Finish(Err(ToolError::NotFound))),
    }
}

/// Whether `event` answers the action that `phase` waits on.
pub fn event_answers(phase: InstallPhase, event: InstallEvent) -> (r: bool)
    ensures
        r == answers(phase, event),
{
    match (phase, event) {
        (InstallPhase::Begin, InstallEvent::Started) => true,
        (InstallPhase::PreparingDirectories, InstallEvent::DirectoriesReady(_)) => true,
        (InstallPhase::CheckingInstalled, InstallEvent::Installed(_)) => true,
        (InstallPhase::CheckingCache, InstallEvent::Cached(_)) => true,
        (InstallPhase::Requesting, InstallEvent::Responded(_)) => true,
        (InstallPhase::Saving, InstallEvent::Saved(_)) => true,
        (InstallPhase::Extracting, InstallEvent::Extracted(_)) => true,
        (InstallPhase::Verifying, InstallEvent::ExecutableFound(_)) => true,
        (InstallPhase::RollingBack { .. }, InstallEvent::RolledBack(_)) => true,
        (InstallPhase::CleaningUp, InstallEvent::CleanedUp) => true,
        _ => false,
    }
}

/// One step of the install sequence.
pub fn install_step(phase: InstallPhase, event: InstallEvent) -> (r: (InstallPhase, InstallAction))
    requires
        answers(phase, event),
    ensures
        r == install_next(phase, event),
{
    match (phase, event) {
        (InstallPhase::Begin, _) => (InstallPhase::PreparingDirectories, InstallAction::EnsureDirectories),
        (InstallPhase::PreparingDirectories, InstallEvent::DirectoriesReady(Err(e))) =>
            (InstallPhase::Done, InstallAction::Finish(Err(e))),
        (InstallPhase::PreparingDirectories, _) => (InstallPhase::CheckingInstalled, InstallAction::CheckInstalled),
        (InstallPhase::CheckingInstalled, InstallEvent::Installed(true)) =>
            (InstallPhase::Done, InstallAction::Finish(Ok(()))),
        (InstallPhase::CheckingInstalled, _) => (InstallPhase::CheckingCache, InstallAction::CheckCache),
        (InstallPhase::CheckingCache, InstallEvent::Cached(true)) => (InstallPhase::Extracting, InstallAction::Extract),
        (InstallPhase::CheckingCache, _) => (InstallPhase::Requesting, InstallAction::Download),
        (InstallPhase::Requesting, InstallEvent::Responded(Ok(status))) =>
            if 200 <= status && status <= 299 {
                (InstallPhase::Saving, InstallAction::SaveArchive)
            } else {
                (InstallPhase::Done, InstallAction::Finish(Err(ToolError::NetworkFailure { status })))
            },
        (InstallPhase::Requesting, InstallEvent::Responded(Err(e))) =>
            (InstallPhase::Done, InstallAction::Finish(Err(e))),
        (InstallPhase::Saving, InstallEvent::Saved(Err(e))) =>
            (InstallPhase::Done, InstallAction::Finish(Err(e))),
        (InstallPhase::Saving, _) => (InstallPhase::Extracting, InstallAction::Extract),
        (InstallPhase::Extracting, InstallEvent::Extracted(Err(e))) =>
            (InstallPhase::RollingBack { cause: e }, InstallAction::RemoveVersion),
        (InstallPhase::Extracting, _) => (InstallPhase::Verifying, InstallAction::FindExecutable),
        (InstallPhase::Verifying, InstallEvent::ExecutableFound(true)) =>
            (InstallPhase::CleaningUp, InstallAction::RemoveCachedArchive),
        (InstallPhase::Verifying, _) =>
            (InstallPhase::RollingBack { cause: ToolError::VerificationFailure }, InstallAction::RemoveVersion),
        (InstallPhase::RollingBack { .. }, InstallEvent::RolledBack(Err(e))) =>
            (InstallPhase::Done, InstallAction::Finish(Err(e))),
        (InstallPhase::RollingBack { cause }, _) => (InstallPhase::Done, InstallAction::Finish(Err(cause))),
        (InstallPhase::CleaningUp, _) => (InstallPhase::Done, InstallAction::Finish(Ok(()))),
        _ => (phase, InstallAction::Finish(Err(ToolError::NotFound))),
    }
}

/// The actions that a sequence of events brings about, from `phase` on; it
/// stops at the first event that does not answer its phase.
pub open spec fn install_run(phase: InstallPhase, events: Seq<InstallEvent>) -> Seq<InstallAction>
    decreases events.len(),
{
    if events.len() == 0 || !answers(phase, events[0]) {
        Seq::empty()
    } else {
        let (next, action) = install_next(phase, events[0]);
        seq![action] + install_run(next, events.drop_first())
    }
}

/// A version whose directory already exists is left alone: the run ends in
/// success right after the check, and nothing is downloaded, whatever is
/// reported afterwards.
pub proof fn lemma_installed_version_is_left_alone(rest: Seq<InstallEvent>)
    ensures
        ({
            let events = seq![InstallEvent::Started, InstallEvent::DirectoriesReady(Ok(())),
                InstallEvent::Installed(true)] + rest;
            install_run(InstallPhase::Begin, events) == seq![InstallAction::EnsureDirectories,
                InstallAction::CheckInstalled, InstallAction::Finish(Ok(()))]
        }),
{
    let events = seq![InstallEvent::Started, InstallEvent::DirectoriesReady(Ok(())),
        InstallEvent::Installed(true)] + rest;
    assert(events.drop_first() =~= seq![InstallEvent::DirectoriesReady(Ok(())),
        InstallEvent::Installed(true)] + rest);
    assert(events.drop_first().drop_first() =~= seq![InstallEvent::Installed(true)] + rest);
    assert(events.drop_first().drop_first().drop_first() =~= rest);
    if rest.len() > 0 {
        assert(!answers(InstallPhase::Done, rest[0]));
    }
    assert(install_run(InstallPhase::Done, rest) =~= Seq::empty());
    let e3 = events.drop_first().drop_first();
    let e2 = events.drop_first();
    assert(install_run(InstallPhase::CheckingInstalled, e3) =~= seq![InstallAction::Finish(Ok(()))]);
    assert(install_run(InstallPhase::PreparingDirectories, e2) =~= seq![InstallAction::CheckInstalled,
        InstallAction::Finish(Ok(()))]);
    assert(install_run(InstallPhase::Begin, events) =~= seq![InstallAction::EnsureDirectories,
        InstallAction::CheckInstalled, InstallAction::Finish(Ok(()))]);
}

/// A run ends in success only right after the version directory was found,
/// or after the cleanup that follows a found executable; the cleanup phase
/// is reached only from a found executable.
pub proof fn lemma_success_needs_executable(phase: InstallPhase, event: InstallEvent)
    requires
        answers(phase, event),
    ensures
        install_next(phase, event).1 == InstallAction::Finish(Ok(())) ==> (phase
            == InstallPhase::CheckingInstalled && event == InstallEvent::Installed(true))
            || phase == InstallPhase::CleaningUp,
        install_next(phase, event).0 == InstallPhase::CleaningUp ==> phase == InstallPhase::Verifying
            && event == InstallEvent::ExecutableFound(true),
{
}

/// Where no executable turns up after extraction, the version directory is
/// removed next, and the run then ends in failure whatever the removal
/// reports: `VerificationFailure` where it succeeded, its own error where
/// not.
pub proof fn lemma_missing_executable_rolls_back(removal: Result<(), ToolError>)
    ensures
        install_next(InstallPhase::Verifying, InstallEvent::ExecutableFound(false)) == (
        InstallPhase::RollingBack { cause: ToolError::VerificationFailure },
        InstallAction::RemoveVersion),
        install_next(
            InstallPhase::RollingBack { cause: ToolError::VerificationFailure },
            InstallEvent::RolledBack(removal),
        ) == (InstallPhase::Done, InstallAction::Finish(
            match removal {
                Ok(()) => Err(ToolError::VerificationFailure),
                Err(e) => Err(e),
            },
        )),
{
}

/// Where extraction fails, whatever it left in the version directory is
/// removed next, and the run then ends with the extraction's error where
/// the removal succeeded, with the removal's error where not.
pub proof fn lemma_failed_extraction_rolls_back(cause: ToolError, removal: Result<(), ToolError>)
    ensures
        install_next(InstallPhase::Extracting, InstallEvent::Extracted(Err(cause))) == (
        InstallPhase::RollingBack { cause },
        InstallAction::RemoveVersion),
        install_next(InstallPhase::RollingBack { cause }, InstallEvent::RolledBack(removal)) == (
        InstallPhase::Done,
        InstallAction::Finish(
            match removal {
                Ok(()) => Err(cause),
                Err(e) => Err(e),
            },
        )),
{
}

} // verus!
