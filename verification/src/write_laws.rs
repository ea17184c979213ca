//! What a replacement does to the disk, whatever the system answers.

use crate::platform::{Platform, Replacement};
use crate::write::{
    spec_write_action, went_well, write_follows, Refusal, Reply, WriteAction, WriteOutcome,
    WriteState,
};
use vstd::prelude::*;

verus! {

/// What the path of the configuration leads to.
pub enum Target {
    /// What was there before.
    Old,
    /// The new text, complete.
    New,
    /// Something else.
    Spoiled,
}

/// What the staging file holds.
pub enum Stage {
    /// There is none.
    Absent,
    /// It is there, without the complete new text.
    Partial,
    /// It holds the new text.
    Written,
    /// It holds the new text, and that is on disk.
    Synced,
}

/// The part of the disk that a replacement works on.
pub struct Disk {
    pub target: Target,
    pub stage: Stage,
}

/// The disk that a replacement starts from.
pub open spec fn untouched() -> Disk {
    Disk { target: Target::Old, stage: Stage::Absent }
}

/// What an action does to the disk. One that fails does nothing that shows, except that a
/// file which is being filled stays incomplete.
pub open spec fn disk_after<E>(disk: Disk, action: WriteAction, reply: Reply<E>) -> Disk {
    match action {
        WriteAction::CreateStage if went_well(reply) => Disk { stage: Stage::Partial, ..disk },
        WriteAction::CopyExisting if !(disk.stage is Absent) => Disk {
            stage: Stage::Partial,
            ..disk
        },
        WriteAction::OpenStage if !(disk.stage is Absent) => Disk {
            stage: Stage::Partial,
            ..disk
        },
        WriteAction::WriteStage if !(disk.stage is Absent) => Disk {
            stage: if went_well(reply) {
                Stage::Written
            } else {
                Stage::Partial
            },
            ..disk
        },
        WriteAction::SyncStage if went_well(reply) && disk.stage is Written => Disk {
            stage: Stage::Synced,
            ..disk
        },
        WriteAction::Replace(_) if went_well(reply) => Disk {
            target: if disk.stage is Synced {
                Target::New
            } else {
                Target::Spoiled
            },
            stage: Stage::Absent,
        },
        WriteAction::RemoveStage if went_well(reply) => Disk { stage: Stage::Absent, ..disk },
        _ => disk,
    }
}

/// The state that a replacement is in after some replies, and the disk by then.
pub open spec fn run<E>(replies: Seq<Reply<E>>, platform: Platform) -> (WriteState<E>, Disk)
    decreases replies.len(),
{
    if replies.len() == 0 {
        (WriteState::InspectLink, untouched())
    } else {
        let (state, disk) = run(replies.drop_last(), platform);
        match spec_write_action(state, platform) {
            None => (state, disk),
            Some(action) => (
                write_follows(state, replies.last(), platform),
                disk_after(disk, action, replies.last()),
            ),
        }
    }
}

/// What is on disk in each state.
pub open spec fn disk_fits<E>(state: WriteState<E>, disk: Disk, platform: Platform) -> bool {
    match state {
        WriteState::InspectLink
        | WriteState::ResolveLink
        | WriteState::InspectTarget
        | WriteState::FindParent { .. }
        | WriteState::CreateStage { .. } => disk == untouched(),
        WriteState::CopyExisting | WriteState::OpenStage | WriteState::WriteStage => disk == Disk {
            target: Target::Old,
            stage: Stage::Partial,
        },
        WriteState::SyncStage => disk == Disk { target: Target::Old, stage: Stage::Written },
        WriteState::Replace => disk == Disk { target: Target::Old, stage: Stage::Synced },
        WriteState::SyncParent => disk == Disk { target: Target::New, stage: Stage::Absent },
        WriteState::RemoveStage(_) => {
            ||| disk.target is Old && !(disk.stage is Absent)
            ||| disk.target is New && disk.stage is Absent && platform == Platform::Other
        },
        WriteState::Finished(outcome) => match outcome {
            WriteOutcome::Replaced => disk == Disk { target: Target::New, stage: Stage::Absent },
            WriteOutcome::Refused(_) => disk == untouched(),
            WriteOutcome::Failed(_) => disk == untouched(),
            WriteOutcome::ReplaceFailed(_) => {
                ||| disk.target is Old
                ||| disk.target is New && disk.stage is Absent && platform == Platform::Other
            },
        },
    }
}

/// How many replies a state can still take.
pub open spec fn steps_left<E>(state: WriteState<E>) -> nat {
    match state {
        WriteState::InspectLink => 12,
        WriteState::ResolveLink => 11,
        WriteState::InspectTarget => 10,
        WriteState::FindParent { .. } => 9,
        WriteState::CreateStage { .. } => 8,
        WriteState::CopyExisting => 7,
        WriteState::OpenStage => 6,
        WriteState::WriteStage => 5,
        WriteState::SyncStage => 4,
        WriteState::Replace => 3,
        WriteState::SyncParent => 2,
        WriteState::RemoveStage(_) => 1,
        WriteState::Finished(_) => 0,
    }
}

/// Whatever the system answers, at every point of a replacement the disk is as its state
/// says. In particular the configuration is never spoiled: it holds what it held before
/// until the complete new text, already on disk, takes its place in one step.
pub proof fn law_configuration_is_old_or_new<E>(replies: Seq<Reply<E>>, platform: Platform)
    ensures
        disk_fits(run(replies, platform).0, run(replies, platform).1, platform),
        !(run(replies, platform).1.target is Spoiled),
    decreases replies.len(),
{
    if replies.len() > 0 {
        law_configuration_is_old_or_new(replies.drop_last(), platform);
    }
}

/// A replacement that reports success has replaced the configuration and left no staging
/// file. One that was refused, or failed before it staged anything, has touched nothing.
pub proof fn law_outcome_tells_what_is_on_disk<E>(
    replies: Seq<Reply<E>>,
    platform: Platform,
    outcome: WriteOutcome<E>,
)
    requires
        run(replies, platform).0 == WriteState::Finished(outcome),
    ensures
        outcome is Replaced ==> run(replies, platform).1 == (Disk {
            target: Target::New,
            stage: Stage::Absent,
        }),
        outcome is Refused || outcome is Failed ==> run(replies, platform).1 == untouched(),
{
    law_configuration_is_old_or_new(replies, platform);
}

/// A replacement whose staged part fails asks for the removal of the staging file and then
/// ends with the error of that failure. Where the removal goes well none is left, and unless
/// it was the flush of the directory that failed the configuration is what it was.
pub proof fn law_failed_replacement_cleans_up<E>(
    replies: Seq<Reply<E>>,
    removal: Reply<E>,
    platform: Platform,
    error: E,
)
    requires
        run(replies, platform).0 == WriteState::RemoveStage(error),
    ensures
        spec_write_action(run(replies, platform).0, platform) == Some(WriteAction::RemoveStage),
        run(replies.push(removal), platform).0 == WriteState::Finished(
            WriteOutcome::ReplaceFailed(error),
        ),
        went_well(removal) ==> run(replies.push(removal), platform).1.stage is Absent,
        platform == Platform::Windows ==> run(replies.push(removal), platform).1.target is Old,
        run(replies.drop_last(), platform).0 !is SyncParent ==> run(
            replies.push(removal),
            platform,
        ).1.target is Old,
{
    law_configuration_is_old_or_new(replies, platform);
    assert(replies.push(removal).drop_last() =~= replies);
    assert(replies.len() > 0);
    law_configuration_is_old_or_new(replies.drop_last(), platform);
}

/// The staging file is asked to be removed only after it was made.
pub proof fn law_only_a_made_stage_is_removed<E>(replies: Seq<Reply<E>>, platform: Platform)
    requires
        run(replies, platform).0 is RemoveStage,
    ensures
        exists|i: int|
            0 <= i < replies.len() && #[trigger] run(replies.take(i), platform).0 is CreateStage
                && went_well(replies[i]),
{
    lemma_staged_after_creation(replies, platform);
}

/// A state of the staged part.
spec fn in_staged_part<E>(state: WriteState<E>) -> bool {
    ||| state is CopyExisting
    ||| state is OpenStage
    ||| state is WriteStage
    ||| state is SyncStage
    ||| state is Replace
    ||| state is SyncParent
    ||| state is RemoveStage
}

proof fn lemma_staged_after_creation<E>(replies: Seq<Reply<E>>, platform: Platform)
    requires
        in_staged_part(run(replies, platform).0),
    ensures
        exists|i: int|
            0 <= i < replies.len() && #[trigger] run(replies.take(i), platform).0 is CreateStage
                && went_well(replies[i]),
    decreases replies.len(),
{
    let front = replies.drop_last();
    assert(replies.len() > 0);
    assert(replies.take(replies.len() - 1) =~= front);
    if in_staged_part(run(front, platform).0) {
        lemma_staged_after_creation(front, platform);
        let i = choose|i: int|
            0 <= i < front.len() && #[trigger] run(front.take(i), platform).0 is CreateStage
                && went_well(front[i]);
        assert(front.take(i) =~= replies.take(i));
        assert(run(replies.take(i), platform).0 is CreateStage);
    } else {
        assert(run(replies.take(replies.len() - 1), platform).0 is CreateStage);
    }
}

/// A read-only configuration is refused before anything is staged.
pub proof fn law_read_only_configuration_is_refused<E>(
    replies: Seq<Reply<E>>,
    platform: Platform,
)
    requires
        run(replies, platform).0 is InspectTarget,
    ensures
        run(replies.push(Reply::Yes), platform) == (
            WriteState::<E>::Finished(WriteOutcome::Refused(Refusal::ReadOnly)),
            untouched(),
        ),
{
    law_configuration_is_old_or_new(replies, platform);
    assert(replies.push(Reply::Yes).drop_last() =~= replies);
}

/// A link that leads nowhere is an error, and the link stays.
pub proof fn law_dangling_link_is_not_replaced<E>(platform: Platform, found: Reply<E>, error: E)
    requires
        went_well(found),
    ensures
        run(seq![found, Reply::Missing(error)], platform) == (
            WriteState::Finished(WriteOutcome::Failed(error)),
            untouched(),
        ),
{
    let replies = seq![found, Reply::Missing(error)];
    assert(replies.drop_last() =~= seq![found]);
    assert(replies.drop_last().drop_last() =~= Seq::empty());
    reveal_with_fuel(run, 3);
}

/// The reply of that number says that there is a file to be replaced, and leave to do it.
pub open spec fn found_existing<E>(
    replies: Seq<Reply<E>>,
    platform: Platform,
    number: int,
) -> bool {
    &&& 0 <= number < replies.len()
    &&& run(replies.take(number), platform).0 is InspectTarget
    &&& went_well(replies[number])
    &&& !(replies[number] is Yes)
}

/// The reply of that number says that the old file was copied over the staging file.
pub open spec fn copied_existing<E>(
    replies: Seq<Reply<E>>,
    platform: Platform,
    number: int,
) -> bool {
    &&& 0 <= number < replies.len()
    &&& run(replies.take(number), platform).0 is CopyExisting
    &&& went_well(replies[number])
}

/// The reply of that number is the one to the order to fill the staging file.
pub open spec fn fills_stage<E>(replies: Seq<Reply<E>>, platform: Platform, number: int) -> bool {
    &&& 0 <= number < replies.len()
    &&& run(replies.take(number), platform).0 is WriteStage
}

/// A replacement that reports success carried the permissions over: where there was a file to
/// be replaced, it was copied over the staging file before that was filled.
pub proof fn law_permissions_are_carried_over<E>(
    replies: Seq<Reply<E>>,
    platform: Platform,
    found: int,
)
    requires
        found_existing(replies, platform, found),
        run(replies, platform).0 == WriteState::<E>::Finished(WriteOutcome::Replaced),
    ensures
        exists|number: int|
            copied_existing(replies, platform, number) && forall|filled: int| #[trigger]
                fills_stage(replies, platform, filled) ==> number < filled,
{
    lemma_existing_is_copied(replies, platform, found);
    let number = choose|number: int| copied_existing(replies, platform, number);
    assert forall|filled: int| #[trigger] fills_stage(replies, platform, filled) implies number
        < filled by {
        if filled <= number {
            lemma_steps_decrease(replies, platform, filled, number);
        }
    }
}

/// A state can take no more replies than an earlier one.
proof fn lemma_steps_decrease<E>(
    replies: Seq<Reply<E>>,
    platform: Platform,
    early: int,
    late: int,
)
    requires
        0 <= early <= late <= replies.len(),
    ensures
        steps_left(run(replies.take(late), platform).0) <= steps_left(
            run(replies.take(early), platform).0,
        ),
    decreases late - early,
{
    if early < late {
        assert(replies.take(late).drop_last() =~= replies.take(late - 1));
        lemma_steps_decrease(replies, platform, early, late - 1);
    }
}

/// What is known of a replacement of a file that is there.
proof fn lemma_existing_is_copied<E>(replies: Seq<Reply<E>>, platform: Platform, found: int)
    requires
        found_existing(replies, platform, found),
    ensures
        match run(replies, platform).0 {
            WriteState::InspectLink
            | WriteState::ResolveLink
            | WriteState::InspectTarget => false,
            WriteState::FindParent { existing } => existing,
            WriteState::CreateStage { existing } => existing,
            WriteState::CopyExisting | WriteState::RemoveStage(_) => true,
            WriteState::Finished(outcome) => outcome is Replaced ==> exists|number: int|
                copied_existing(replies, platform, number),
            _ => exists|number: int| copied_existing(replies, platform, number),
        },
    decreases replies.len(),
{
    let front = replies.drop_last();
    assert(replies.take(replies.len() - 1) =~= front);
    if found < front.len() {
        assert(front.take(found) =~= replies.take(found));
        lemma_existing_is_copied(front, platform, found);
        if exists|number: int| copied_existing(front, platform, number) {
            let number = choose|number: int| copied_existing(front, platform, number);
            assert(front.take(number) =~= replies.take(number));
            assert(copied_existing(replies, platform, number));
        } else if run(front, platform).0 is CopyExisting && went_well(replies.last()) {
            assert(copied_existing(replies, platform, replies.len() - 1));
        }
    }
}

/// Every replacement comes to an end: twelve replies are enough.
pub proof fn law_replacement_ends<E>(replies: Seq<Reply<E>>, platform: Platform)
    ensures
        steps_left(run(replies, platform).0) + replies.len() <= 12 || run(replies, platform).0
            is Finished,
        replies.len() >= 12 ==> run(replies, platform).0 is Finished,
    decreases replies.len(),
{
    if replies.len() > 0 {
        law_replacement_ends(replies.drop_last(), platform);
    }
}

/// A replacement that reports success lasts: the move was written through, or the directory
/// was flushed after the rename.
pub proof fn law_replacement_lasts<E>(replies: Seq<Reply<E>>, platform: Platform)
    requires
        run(replies, platform).0 == WriteState::<E>::Finished(WriteOutcome::Replaced),
    ensures
        spec_write_action(WriteState::<E>::Replace, platform) == Some(
            WriteAction::Replace(Replacement::MoveWriteThrough),
        ) || exists|i: int|
            0 <= i < replies.len() && #[trigger] run(replies.take(i), platform).0 is SyncParent
                && went_well(replies[i]),
    decreases replies.len(),
{
    if platform == Platform::Other {
        let front = replies.drop_last();
        assert(replies.len() > 0);
        assert(replies.take(replies.len() - 1) =~= front);
        if run(front, platform).0 is Finished {
            law_replacement_lasts(front, platform);
            let i = choose|i: int|
                0 <= i < front.len() && #[trigger] run(front.take(i), platform).0 is SyncParent
                    && went_well(front[i]);
            assert(front.take(i) =~= replies.take(i));
            assert(run(replies.take(i), platform).0 is SyncParent);
        } else {
            assert(run(replies.take(replies.len() - 1), platform).0 is SyncParent);
        }
    }
}

/// What a run has asked for and got a reply to, in order.
pub open spec fn asked<E>(replies: Seq<Reply<E>>, platform: Platform) -> Seq<WriteAction>
    decreases replies.len(),
{
    if replies.len() == 0 {
        Seq::empty()
    } else {
        let before = asked(replies.drop_last(), platform);
        match spec_write_action(run(replies.drop_last(), platform).0, platform) {
            None => before,
            Some(action) => before.push(action),
        }
    }
}

/// Everything that a replacement has to do. `found` says that something is at the path, `existing`
/// that there is a file to be replaced.
#[verifier::opaque]
pub open spec fn plan(found: bool, existing: bool, platform: Platform) -> Seq<WriteAction> {
    let link = if found {
        seq![WriteAction::InspectLink, WriteAction::ResolveLink]
    } else {
        seq![WriteAction::InspectLink]
    };
    let copy = if existing {
        seq![WriteAction::CopyExisting]
    } else {
        Seq::empty()
    };
    let swap = match platform {
        Platform::Windows => seq![WriteAction::Replace(Replacement::MoveWriteThrough)],
        Platform::Other => seq![
            WriteAction::Replace(Replacement::Rename),
            WriteAction::SyncParent,
        ],
    };
    link + seq![WriteAction::InspectTarget, WriteAction::FindParent, WriteAction::CreateStage]
        + copy + seq![WriteAction::OpenStage, WriteAction::WriteStage, WriteAction::SyncStage]
        + swap
}

/// A reply after which there is something left to do, or all is done: no error, but for nothing
/// being there yet, no read-only file, and a directory.
pub open spec fn lets_go_on<E>(action: WriteAction, reply: Reply<E>) -> bool {
    match action {
        WriteAction::InspectLink => !(reply is Failed),
        WriteAction::InspectTarget => !(reply is Failed) && !(reply is Yes),
        WriteAction::FindParent => !(reply is Failed) && !(reply is Missing) && !(reply is No),
        _ => !(reply is Failed) && !(reply is Missing),
    }
}

/// The replies to the first looks say what was found: whether something is at the path, and
/// whether there is a file to be replaced.
pub open spec fn tells<E>(replies: Seq<Reply<E>>, found: bool, existing: bool) -> bool {
    let target: int = if found {
        2
    } else {
        1
    };
    &&& replies.len() > 0 ==> found == !(replies[0] is Missing)
    &&& replies.len() > target ==> existing == !(replies[target] is Missing)
}

/// A replacement that reports success did everything that it had to do, in order and nothing
/// else, and no reply stood in its way.
pub proof fn law_success_means_the_whole_plan<E>(
    replies: Seq<Reply<E>>,
    platform: Platform,
    found: bool,
    existing: bool,
)
    requires
        run(replies, platform).0 == WriteState::<E>::Finished(WriteOutcome::Replaced),
        tells(replies, found, existing),
    ensures
        asked(replies, platform) == plan(found, existing, platform),
        plan(found, existing, platform).len() <= replies.len(),
        forall|i: int|
            0 <= i < plan(found, existing, platform).len() ==> lets_go_on(
                #[trigger] plan(found, existing, platform)[i],
                replies[i],
            ),
{
    lemma_on_plan(replies, platform, found, existing);
}

/// Where no reply stands in its way, a replacement reports success.
pub proof fn law_good_replies_replace_the_file<E>(
    replies: Seq<Reply<E>>,
    platform: Platform,
    found: bool,
    existing: bool,
)
    requires
        tells(replies, found, existing),
        plan(found, existing, platform).len() <= replies.len(),
        forall|i: int|
            0 <= i < plan(found, existing, platform).len() ==> lets_go_on(
                #[trigger] plan(found, existing, platform)[i],
                replies[i],
            ),
    ensures
        run(replies, platform).0 == WriteState::<E>::Finished(WriteOutcome::Replaced),
    decreases replies.len(),
{
    let whole = plan(found, existing, platform);
    if replies.len() > whole.len() {
        law_good_replies_replace_the_file(replies.drop_last(), platform, found, existing);
    } else {
        lemma_good_so_far(replies, platform, found, existing);
        lemma_on_plan(replies, platform, found, existing);
    }
}

/// A reply that stands in the way ends a replacement with what it says. Nothing is staged by
/// then, or the staging file is to be removed first.
pub proof fn law_bad_reply_ends_the_replacement<E>(
    replies: Seq<Reply<E>>,
    platform: Platform,
    action: WriteAction,
    reply: Reply<E>,
)
    requires
        spec_write_action(run(replies, platform).0, platform) == Some(action),
        !lets_go_on(action, reply),
        !(action is RemoveStage),
    ensures
        ({
            let next = run(replies.push(reply), platform).0;
            let early = action is InspectLink || action is ResolveLink || action is InspectTarget
                || action is FindParent || action is CreateStage;
            match reply {
                Reply::Missing(error) | Reply::Failed(error) => next == if early {
                    WriteState::Finished(WriteOutcome::Failed(error))
                } else {
                    WriteState::RemoveStage(error)
                },
                Reply::Yes => action is InspectTarget && next == WriteState::<E>::Finished(
                    WriteOutcome::Refused(Refusal::ReadOnly),
                ),
                Reply::No => action is FindParent && next == WriteState::<E>::Finished(
                    WriteOutcome::Refused(Refusal::NoParent),
                ),
                Reply::Done => false,
            }
        }),
{
    assert(replies.push(reply).drop_last() =~= replies);
}

/// A replacement that has ended stays as it is, whatever is said to it.
pub proof fn law_ended_replacement_stays<E>(
    outcome: WriteOutcome<E>,
    reply: Reply<E>,
    platform: Platform,
)
    ensures
        write_follows(WriteState::Finished(outcome), reply, platform) == WriteState::Finished(
            outcome,
        ),
        spec_write_action(WriteState::Finished(outcome), platform) is None,
{
}

/// Before anything is staged, a link at the path was followed and the file it leads to was found
/// to be writable, on every platform: where the first reply found something, a run that comes to
/// the staging file has asked for the link to be resolved and then for the target to be looked
/// at. Both went well, and the answer was not that the target is read-only. Where nothing was
/// found, the target was looked at all the same.
pub proof fn law_link_and_target_come_before_the_stage<E>(
    replies: Seq<Reply<E>>,
    platform: Platform,
)
    requires
        run(replies, platform).0 is CreateStage,
    ensures
        replies.len() >= 3,
        spec_write_action(run(replies.take(0), platform).0, platform) == Some(
            WriteAction::InspectLink,
        ),
        !(replies[0] is Failed),
        !(replies[0] is Missing) ==> {
            &&& replies.len() == 4
            &&& spec_write_action(run(replies.take(1), platform).0, platform) == Some(
                WriteAction::ResolveLink,
            )
            &&& !(replies[1] is Missing) && !(replies[1] is Failed)
            &&& spec_write_action(run(replies.take(2), platform).0, platform) == Some(
                WriteAction::InspectTarget,
            )
            &&& !(replies[2] is Yes) && !(replies[2] is Failed)
            &&& run(replies, platform).0 == WriteState::<E>::CreateStage {
                existing: !(replies[2] is Missing),
            }
        },
        replies[0] is Missing ==> {
            &&& replies.len() == 3
            &&& spec_write_action(run(replies.take(1), platform).0, platform) == Some(
                WriteAction::InspectTarget,
            )
            &&& !(replies[1] is Yes) && !(replies[1] is Failed)
            &&& run(replies, platform).0 == WriteState::<E>::CreateStage {
                existing: !(replies[1] is Missing),
            }
        },
{
    let found = replies.len() > 0 && !(replies[0] is Missing);
    let target: int = if found {
        2
    } else {
        1
    };
    let existing = replies.len() > target && !(replies[target] is Missing);
    lemma_on_plan(replies, platform, found, existing);
    reveal(plan);
    let whole = plan(found, existing, platform);
    assert(whole[0] is InspectLink);
    assert(lets_go_on(whole[0], replies[0]));
    assert(lets_go_on(whole[1], replies[1]));
    assert(lets_go_on(whole[2], replies[2]));
    lemma_asked_before(replies, platform, 0);
    lemma_asked_before(replies, platform, 1);
    lemma_asked_before(replies, platform, 2);
}

/// How many replies come before a state.
spec fn place<E>(state: WriteState<E>, found: bool, existing: bool) -> int {
    let link: int = if found {
        1
    } else {
        0
    };
    let copy: int = if existing {
        1
    } else {
        0
    };
    match state {
        WriteState::InspectLink => 0,
        WriteState::ResolveLink => 1,
        WriteState::InspectTarget => 1 + link,
        WriteState::FindParent { .. } => 2 + link,
        WriteState::CreateStage { .. } => 3 + link,
        WriteState::CopyExisting => 4 + link,
        WriteState::OpenStage => 4 + link + copy,
        WriteState::WriteStage => 5 + link + copy,
        WriteState::SyncStage => 6 + link + copy,
        WriteState::Replace => 7 + link + copy,
        WriteState::SyncParent => 8 + link + copy,
        _ => -1,
    }
}

/// What a state says of what was found.
spec fn remembers<E>(
    state: WriteState<E>,
    found: bool,
    existing: bool,
    platform: Platform,
) -> bool {
    match state {
        WriteState::ResolveLink => found,
        WriteState::FindParent { existing: kept } => kept == existing,
        WriteState::CreateStage { existing: kept } => kept == existing,
        WriteState::CopyExisting => existing,
        WriteState::SyncParent => platform == Platform::Other,
        _ => true,
    }
}

/// The plan holds what each state asks for at the place of that state.
proof fn lemma_place_on_plan<E>(
    state: WriteState<E>,
    found: bool,
    existing: bool,
    platform: Platform,
)
    requires
        remembers(state, found, existing, platform),
        !(state is RemoveStage) && !(state is Finished),
    ensures
        0 <= place(state, found, existing) < plan(found, existing, platform).len(),
        spec_write_action(state, platform) == Some(
            plan(found, existing, platform)[place(state, found, existing)],
        ),
{
    reveal(plan);
    let whole = plan(found, existing, platform);
    let link: int = if found {
        1
    } else {
        0
    };
    let copy: int = if existing {
        1
    } else {
        0
    };
    assert(whole[0] is InspectLink);
    assert(found ==> whole[1] is ResolveLink);
    assert(whole[1 + link] is InspectTarget);
    assert(whole[2 + link] is FindParent);
    assert(whole[3 + link] is CreateStage);
    assert(existing ==> whole[4 + link] is CopyExisting);
    assert(whole[4 + link + copy] is OpenStage);
    assert(whole[5 + link + copy] is WriteStage);
    assert(whole[6 + link + copy] is SyncStage);
    assert(platform == Platform::Windows ==> whole.len() == 8 + link + copy);
    assert(platform == Platform::Other ==> whole.len() == 9 + link + copy);
}

/// How many things there are to do.
proof fn lemma_plan_length(found: bool, existing: bool, platform: Platform)
    ensures
        plan(found, existing, platform).len() == 8 + (if found {
            1int
        } else {
            0int
        }) + (if existing {
            1int
        } else {
            0int
        }) + (if platform == Platform::Other {
            1int
        } else {
            0int
        }),
{
    reveal(plan);
}

/// A reply leads to the next place of the plan, or to its end, or stands in the way.
proof fn lemma_one_step<E>(
    state: WriteState<E>,
    reply: Reply<E>,
    found: bool,
    existing: bool,
    platform: Platform,
)
    requires
        remembers(state, found, existing, platform),
        !(state is RemoveStage) && !(state is Finished),
        state is InspectLink ==> found == !(reply is Missing),
        state is InspectTarget ==> existing == !(reply is Missing),
    ensures
        ({
            let next = write_follows(state, reply, platform);
            let action = spec_write_action(state, platform)->0;
            match next {
                WriteState::RemoveStage(_) => !lets_go_on(action, reply),
                WriteState::Finished(outcome) => {
                    &&& outcome is Replaced <==> lets_go_on(action, reply)
                    &&& outcome is Replaced ==> place(state, found, existing) + 1 == plan(
                        found,
                        existing,
                        platform,
                    ).len()
                },
                _ => {
                    &&& lets_go_on(action, reply)
                    &&& remembers(next, found, existing, platform)
                    &&& place(next, found, existing) == place(state, found, existing) + 1
                },
            }
        }),
{
    lemma_plan_length(found, existing, platform);
}

/// A run that has met no reply in its way is where the plan says.
proof fn lemma_on_plan<E>(
    replies: Seq<Reply<E>>,
    platform: Platform,
    found: bool,
    existing: bool,
)
    requires
        tells(replies, found, existing),
    ensures
        match run(replies, platform).0 {
            WriteState::RemoveStage(_) => true,
            WriteState::Finished(outcome) => outcome is Replaced ==> {
                let whole = plan(found, existing, platform);
                &&& asked(replies, platform) == whole
                &&& whole.len() <= replies.len()
                &&& forall|i: int|
                    0 <= i < whole.len() ==> lets_go_on(#[trigger] whole[i], replies[i])
            },
            state => {
                let whole = plan(found, existing, platform);
                &&& replies.len() == place(state, found, existing)
                &&& remembers(state, found, existing, platform)
                &&& asked(replies, platform) == whole.take(replies.len() as int)
                &&& forall|i: int|
                    0 <= i < replies.len() ==> lets_go_on(#[trigger] whole[i], replies[i])
            },
        },
    decreases replies.len(),
{
    let whole = plan(found, existing, platform);
    if replies.len() == 0 {
        assert(asked(replies, platform) =~= whole.take(0));
    } else {
        let front = replies.drop_last();
        let state = run(front, platform).0;
        lemma_on_plan(front, platform, found, existing);
        if state is Finished {
            if run(replies, platform).0 == WriteState::<E>::Finished(WriteOutcome::Replaced) {
                assert forall|i: int| 0 <= i < whole.len() implies lets_go_on(
                    #[trigger] whole[i],
                    replies[i],
                ) by {
                    assert(lets_go_on(whole[i], front[i]));
                }
            }
        } else if !(state is RemoveStage) {
            lemma_place_on_plan(state, found, existing, platform);
            lemma_one_step(state, replies.last(), found, existing, platform);
            let action = whole[front.len() as int];
            assert(asked(replies, platform) =~= whole.take(replies.len() as int));
            assert(whole.take(whole.len() as int) =~= whole);
            if lets_go_on(action, replies.last()) {
                assert forall|i: int| 0 <= i < replies.len() implies lets_go_on(
                    #[trigger] whole[i],
                    replies[i],
                ) by {
                    if i < front.len() {
                        assert(lets_go_on(whole[i], front[i]));
                    }
                }
            }
        }
    }
}

/// A run whose replies so far do not stand in its way has not failed, and has ended only with the
/// plan.
proof fn lemma_good_so_far<E>(
    replies: Seq<Reply<E>>,
    platform: Platform,
    found: bool,
    existing: bool,
)
    requires
        tells(replies, found, existing),
        replies.len() <= plan(found, existing, platform).len(),
        forall|i: int|
            0 <= i < replies.len() ==> lets_go_on(
                #[trigger] plan(found, existing, platform)[i],
                replies[i],
            ),
    ensures
        !(run(replies, platform).0 is RemoveStage),
        run(replies, platform).0 is Finished ==> run(replies, platform).0
            == WriteState::<E>::Finished(WriteOutcome::Replaced),
        run(replies, platform).0 is Finished <==> replies.len() == plan(
            found,
            existing,
            platform,
        ).len(),
    decreases replies.len(),
{
    let whole = plan(found, existing, platform);
    lemma_on_plan(replies, platform, found, existing);
    if replies.len() > 0 {
        let front = replies.drop_last();
        assert forall|i: int| 0 <= i < front.len() implies lets_go_on(
            #[trigger] whole[i],
            front[i],
        ) by {
            assert(lets_go_on(whole[i], replies[i]));
        }
        lemma_good_so_far(front, platform, found, existing);
        let state = run(front, platform).0;
        lemma_on_plan(front, platform, found, existing);
        lemma_place_on_plan(state, found, existing, platform);
        assert(lets_go_on(whole[front.len() as int], replies.last()));
        lemma_one_step(state, replies.last(), found, existing, platform);
        let next = run(replies, platform).0;
        if next is Finished {
            assert(whole.len() == replies.len());
        } else {
            lemma_place_on_plan(next, found, existing, platform);
        }
    } else {
        lemma_place_on_plan(WriteState::<E>::InspectLink, found, existing, platform);
    }
}

/// What was asked for at some point is what the state by then asks for.
proof fn lemma_asked_before<E>(replies: Seq<Reply<E>>, platform: Platform, number: int)
    requires
        0 <= number < replies.len(),
        asked(replies, platform).len() == replies.len(),
    ensures
        spec_write_action(run(replies.take(number), platform).0, platform) == Some(
            asked(replies, platform)[number],
        ),
    decreases replies.len(),
{
    let front = replies.drop_last();
    lemma_asked_length(front, platform);
    if number == replies.len() - 1 {
        assert(replies.take(number) =~= front);
    } else {
        lemma_asked_before(front, platform, number);
        assert(front.take(number) =~= replies.take(number));
    }
}

/// No more is asked for than there are replies.
proof fn lemma_asked_length<E>(replies: Seq<Reply<E>>, platform: Platform)
    ensures
        asked(replies, platform).len() <= replies.len(),
    decreases replies.len(),
{
    if replies.len() > 0 {
        lemma_asked_length(replies.drop_last(), platform);
    }
}

} // verus!
