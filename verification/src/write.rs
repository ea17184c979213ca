//! Replacing a configuration file as a whole.
//!
//! The new text is staged in a file of its own beside the old one and takes its place only
//! when it is complete and on disk. Callers carry out one [`WriteAction`] at a time and
//! report how it went; [`write_config`] says what follows.

use crate::error::sentence;
use crate::platform::{replace_file, sync_parent_directory, Platform, Replacement};
use vstd::prelude::*;

verus! {

/// How an action went. `E` is the system's error.
#[derive(Debug)]
pub enum Reply<E> {
    /// It was carried out.
    Done,
    /// The question is answered with yes.
    Yes,
    /// The question is answered with no.
    No,
    /// It failed because nothing is there.
    Missing(E),
    /// It failed for another reason.
    Failed(E),
}

/// Why a file is not written at all.
#[derive(Clone, Copy, Debug, PartialEq, Eq, Structural)]
pub enum Refusal {
    /// The user made the file read-only.
    ReadOnly,
    /// The path has no directory to stage the text in.
    NoParent,
}

/// How the replacement ended.
#[derive(Debug)]
pub enum WriteOutcome<E> {
    /// The file holds the new text.
    Replaced,
    /// The file was left alone, and nothing was staged.
    Refused(Refusal),
    /// The system's error, before anything was staged.
    Failed(E),
    /// The system's error, after the text began to be staged.
    ReplaceFailed(E),
}

/// Where a replacement stands: what it asks for next, or how it ended.
#[derive(Debug)]
pub enum WriteState<E> {
    InspectLink,
    ResolveLink,
    InspectTarget,
    FindParent { existing: bool },
    CreateStage { existing: bool },
    CopyExisting,
    OpenStage,
    WriteStage,
    SyncStage,
    Replace,
    SyncParent,
    RemoveStage(E),
    Finished(WriteOutcome<E>),
}

/// What the caller is to do.
#[derive(Clone, Copy, Debug, PartialEq, Eq, Structural)]
pub enum WriteAction {
    /// Look at what the path itself names, without following a link.
    InspectLink,
    /// Follow the link to the file that is to be replaced.
    ResolveLink,
    /// Look at the file that is to be replaced: is it read-only?
    InspectTarget,
    /// Does the path of that file have a directory?
    FindParent,
    /// Make the staging file in that directory, for this user alone.
    CreateStage,
    /// Copy the old file with its permissions over the staging file.
    CopyExisting,
    /// Open the staging file and empty it.
    OpenStage,
    /// Write the new text to the staging file.
    WriteStage,
    /// Bring the staging file to disk and close it.
    SyncStage,
    /// Put the staging file in place of the old one.
    Replace(Replacement),
    /// Bring the directory to disk.
    SyncParent,
    /// Remove the staging file.
    RemoveStage,
}

/// A reply that reports no error.
pub open spec fn went_well<E>(reply: Reply<E>) -> bool {
    !(reply is Missing) && !(reply is Failed)
}

/// The error of a reply that reports one.
pub open spec fn reply_error<E>(reply: Reply<E>) -> E
    recommends
        !went_well(reply),
{
    match reply {
        Reply::Missing(error) => error,
        _ => reply->Failed_0,
    }
}

/// What a state asks for, if it has not ended.
pub open spec fn spec_write_action<E>(state: WriteState<E>, platform: Platform) -> Option<
    WriteAction,
> {
    match state {
        WriteState::InspectLink => Some(WriteAction::InspectLink),
        WriteState::ResolveLink => Some(WriteAction::ResolveLink),
        WriteState::InspectTarget => Some(WriteAction::InspectTarget),
        WriteState::FindParent { .. } => Some(WriteAction::FindParent),
        WriteState::CreateStage { .. } => Some(WriteAction::CreateStage),
        WriteState::CopyExisting => Some(WriteAction::CopyExisting),
        WriteState::OpenStage => Some(WriteAction::OpenStage),
        WriteState::WriteStage => Some(WriteAction::WriteStage),
        WriteState::SyncStage => Some(WriteAction::SyncStage),
        WriteState::Replace => Some(
            WriteAction::Replace(
                match platform {
                    Platform::Windows => Replacement::MoveWriteThrough,
                    Platform::Other => Replacement::Rename,
                },
            ),
        ),
        WriteState::SyncParent => Some(WriteAction::SyncParent),
        WriteState::RemoveStage(_) => Some(WriteAction::RemoveStage),
        WriteState::Finished(_) => None,
    }
}

/// The state that follows when a step of the staged part goes well.
pub open spec fn after_stage_step<E>(state: WriteState<E>, platform: Platform) -> WriteState<E> {
    match state {
        WriteState::CopyExisting => WriteState::OpenStage,
        WriteState::OpenStage => WriteState::WriteStage,
        WriteState::WriteStage => WriteState::SyncStage,
        WriteState::SyncStage => WriteState::Replace,
        WriteState::Replace if platform == Platform::Other => WriteState::SyncParent,
        _ => WriteState::Finished(WriteOutcome::Replaced),
    }
}

/// The state that follows a reply.
///
/// A link is resolved, so that the replacement preserves it; one that leads nowhere is an
/// error and no leave to replace it. A path without anything gets a new file. A read-only
/// file is refused. An error before the staging file was made is passed on as it is; one
/// after that has the staging file removed first, however that goes.
pub open spec fn write_follows<E>(
    state: WriteState<E>,
    reply: Reply<E>,
    platform: Platform,
) -> WriteState<E> {
    match state {
        WriteState::InspectLink => match reply {
            Reply::Missing(_) => WriteState::InspectTarget,
            Reply::Failed(error) => WriteState::Finished(WriteOutcome::Failed(error)),
            _ => WriteState::ResolveLink,
        },
        WriteState::ResolveLink => if went_well(reply) {
            WriteState::InspectTarget
        } else {
            WriteState::Finished(WriteOutcome::Failed(reply_error(reply)))
        },
        WriteState::InspectTarget => match reply {
            Reply::Yes => WriteState::Finished(WriteOutcome::Refused(Refusal::ReadOnly)),
            Reply::Missing(_) => WriteState::FindParent { existing: false },
            Reply::Failed(error) => WriteState::Finished(WriteOutcome::Failed(error)),
            _ => WriteState::FindParent { existing: true },
        },
        WriteState::FindParent { existing } => if !went_well(reply) {
            WriteState::Finished(WriteOutcome::Failed(reply_error(reply)))
        } else if reply is No {
            WriteState::Finished(WriteOutcome::Refused(Refusal::NoParent))
        } else {
            WriteState::CreateStage { existing }
        },
        WriteState::CreateStage { existing } => if !went_well(reply) {
            WriteState::Finished(WriteOutcome::Failed(reply_error(reply)))
        } else if existing {
            WriteState::CopyExisting
        } else {
            WriteState::OpenStage
        },
        WriteState::RemoveStage(error) => WriteState::Finished(WriteOutcome::ReplaceFailed(error)),
        WriteState::Finished(_) => state,
        _ => if went_well(reply) {
            after_stage_step(state, platform)
        } else {
            WriteState::RemoveStage(reply_error(reply))
        },
    }
}

impl<E> Reply<E> {
    /// The error that a reply reports, if it reports one.
    pub fn error(self) -> (error: Option<E>)
        ensures
            error is None <==> went_well(self),
            error matches Some(error) ==> error == reply_error(self),
            match self {
                Reply::Missing(reported) => error == Some(reported),
                Reply::Failed(reported) => error == Some(reported),
                _ => error is None,
            },
    {
        match self {
            Reply::Missing(error) => Some(error),
            Reply::Failed(error) => Some(error),
            _ => None,
        }
    }
}

/// What the caller is to do next, `None` where the replacement has ended.
pub fn write_action<E>(state: &WriteState<E>, platform: Platform) -> (action: Option<WriteAction>)
    ensures
        action == spec_write_action(*state, platform),
{
    match state {
        WriteState::InspectLink => Some(WriteAction::InspectLink),
        WriteState::ResolveLink => Some(WriteAction::ResolveLink),
        WriteState::InspectTarget => Some(WriteAction::InspectTarget),
        WriteState::FindParent { .. } => Some(WriteAction::FindParent),
        WriteState::CreateStage { .. } => Some(WriteAction::CreateStage),
        WriteState::CopyExisting => Some(WriteAction::CopyExisting),
        WriteState::OpenStage => Some(WriteAction::OpenStage),
        WriteState::WriteStage => Some(WriteAction::WriteStage),
        WriteState::SyncStage => Some(WriteAction::SyncStage),
        WriteState::Replace => Some(WriteAction::Replace(replace_file(platform))),
        WriteState::SyncParent => Some(WriteAction::SyncParent),
        WriteState::RemoveStage(_) => Some(WriteAction::RemoveStage),
        WriteState::Finished(_) => None,
    }
}

/// Says what follows a reply to the action that a state asks for. A replacement starts in
/// [`WriteState::InspectLink`].
pub fn write_config<E>(state: WriteState<E>, reply: Reply<E>, platform: Platform) -> (next:
    WriteState<E>)
    ensures
        next == write_follows(state, reply, platform),
{
    match state {
        WriteState::InspectLink => match reply {
            Reply::Missing(_) => WriteState::InspectTarget,
            Reply::Failed(error) => WriteState::Finished(WriteOutcome::Failed(error)),
            _ => WriteState::ResolveLink,
        },
        WriteState::ResolveLink => match reply.error() {
            Some(error) => WriteState::Finished(WriteOutcome::Failed(error)),
            None => WriteState::InspectTarget,
        },
        WriteState::InspectTarget => match reply {
            Reply::Yes => WriteState::Finished(WriteOutcome::Refused(Refusal::ReadOnly)),
            Reply::Missing(_) => WriteState::FindParent { existing: false },
            Reply::Failed(error) => WriteState::Finished(WriteOutcome::Failed(error)),
            _ => WriteState::FindParent { existing: true },
        },
        WriteState::FindParent { existing } => match reply {
            Reply::No => WriteState::Finished(WriteOutcome::Refused(Refusal::NoParent)),
            _ => match reply.error() {
                Some(error) => WriteState::Finished(WriteOutcome::Failed(error)),
                None => WriteState::CreateStage { existing },
            },
        },
        WriteState::CreateStage { existing } => match reply.error() {
            Some(error) => WriteState::Finished(WriteOutcome::Failed(error)),
            None => if existing {
                WriteState::CopyExisting
            } else {
                WriteState::OpenStage
            },
        },
        WriteState::CopyExisting => staged(reply, WriteState::OpenStage),
        WriteState::OpenStage => staged(reply, WriteState::WriteStage),
        WriteState::WriteStage => staged(reply, WriteState::SyncStage),
        WriteState::SyncStage => staged(reply, WriteState::Replace),
        WriteState::Replace => if sync_parent_directory(platform) {
            staged(reply, WriteState::SyncParent)
        } else {
            staged(reply, WriteState::Finished(WriteOutcome::Replaced))
        },
        WriteState::SyncParent => staged(reply, WriteState::Finished(WriteOutcome::Replaced)),
        WriteState::RemoveStage(error) => WriteState::Finished(WriteOutcome::ReplaceFailed(error)),
        WriteState::Finished(outcome) => WriteState::Finished(outcome),
    }
}

/// A step of the staged part: on to the next one, or to the removal of the staging file.
fn staged<E>(reply: Reply<E>, next: WriteState<E>) -> (state: WriteState<E>)
    ensures
        state == if went_well(reply) {
            next
        } else {
            WriteState::RemoveStage(reply_error(reply))
        },
{
    match reply.error() {
        Some(error) => WriteState::RemoveStage(error),
        None => next,
    }
}

impl Refusal {
    pub open spec fn spec_message(self) -> Seq<char> {
        match self {
            Refusal::ReadOnly => "OpenCode TUI config is read-only"@,
            Refusal::NoParent => "OpenCode TUI config has no parent directory"@,
        }
    }

    /// The sentence that reports a refusal.
    pub fn message(self) -> (message: &'static str)
        ensures
            message@ == self.spec_message(),
            self is ReadOnly ==> message@ == "OpenCode TUI config is read-only"@,
            self is NoParent ==> message@ == "OpenCode TUI config has no parent directory"@,
    {
        match self {
            Refusal::ReadOnly => "OpenCode TUI config is read-only",
            Refusal::NoParent => "OpenCode TUI config has no parent directory",
        }
    }
}

/// The sentence that reports an error of the staged part, from the path and the system's own
/// words.
pub fn replace_failure_message(path: &str, error: &str) -> (message: String)
    ensures
        message@ == "failed to replace OpenCode TUI config at "@ + path@ + ": "@ + error@,
{
    let mut message: String = sentence("failed to replace OpenCode TUI config at ", path, ": ");
    message.append(error);
    message
}

} // verus!
