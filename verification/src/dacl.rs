//! Copying the access list of a file on Windows.
//!
//! The descriptor that holds the list is measured, read, asked whether its list is
//! protected from inheritance, and applied to the other file. Callers carry out one
//! [`DaclStep`] at a time and report how it went; [`copy_file_dacl`] says what follows.

use vstd::prelude::*;
use windows_sys::Win32::Foundation::ERROR_INSUFFICIENT_BUFFER;
use windows_sys::Win32::Security::{
    DACL_SECURITY_INFORMATION, PROTECTED_DACL_SECURITY_INFORMATION, SE_DACL_PROTECTED,
    UNPROTECTED_DACL_SECURITY_INFORMATION,
};

verus! {

/// The error by which the system says that a buffer is too small.
pub const BUFFER_TOO_SMALL: u32 = 122;

/// The flag for the access list of a descriptor.
pub const ACCESS_LIST: u32 = 4;

/// The flag for a list that is protected from inheritance.
pub const PROTECTED_LIST: u32 = 0x8000_0000;

/// The flag for a list that is open to inheritance.
pub const UNPROTECTED_LIST: u32 = 0x2000_0000;

/// The control bit of a descriptor whose list is protected.
pub const PROTECTED_CONTROL: u16 = 0x1000;

/// The constant `ERROR_INSUFFICIENT_BUFFER` of `windows_sys`.
#[verifier::external_body]
fn error_insufficient_buffer() -> (code: u32)
    ensures
        code == BUFFER_TOO_SMALL,
{
    ERROR_INSUFFICIENT_BUFFER
}

/// The constant `DACL_SECURITY_INFORMATION` of `windows_sys`.
#[verifier::external_body]
fn dacl_security_information() -> (flag: u32)
    ensures
        flag == ACCESS_LIST,
{
    DACL_SECURITY_INFORMATION
}

/// The constant `PROTECTED_DACL_SECURITY_INFORMATION` of `windows_sys`.
#[verifier::external_body]
fn protected_dacl_security_information() -> (flag: u32)
    ensures
        flag == PROTECTED_LIST,
{
    PROTECTED_DACL_SECURITY_INFORMATION
}

/// The constant `UNPROTECTED_DACL_SECURITY_INFORMATION` of `windows_sys`.
#[verifier::external_body]
fn unprotected_dacl_security_information() -> (flag: u32)
    ensures
        flag == UNPROTECTED_LIST,
{
    UNPROTECTED_DACL_SECURITY_INFORMATION
}

/// The constant `SE_DACL_PROTECTED` of `windows_sys`.
#[verifier::external_body]
fn se_dacl_protected() -> (bit: u16)
    ensures
        bit == PROTECTED_CONTROL,
{
    SE_DACL_PROTECTED
}

/// What the caller is to do.
#[derive(Clone, Copy, Debug, PartialEq, Eq, Structural)]
pub enum DaclStep {
    /// Ask for the descriptor of the source with a buffer of no bytes.
    Measure,
    /// Read the descriptor of the source into a buffer of that many bytes, held as that many
    /// words of four bytes so that it is aligned.
    Read { bytes: u32, words: usize },
    /// Ask for the control bits of the descriptor.
    Control,
    /// Set these parts of the descriptor on the destination.
    Apply { information: u32 },
}

/// How a step went. `E` is the system's error.
#[derive(Debug)]
pub enum DaclReply<E> {
    /// The measuring gave this error, with this code, and asks for that many bytes.
    Measured { bytes: u32, code: Option<i32>, error: E },
    /// These are the control bits.
    Bits(u16),
    /// The step was carried out.
    Done,
    /// The step failed.
    Failed(E),
}

/// What follows a step.
#[derive(Debug)]
pub enum DaclProgress<E> {
    /// There is more to do.
    Next(DaclStep),
    /// The list is copied.
    Copied,
    /// The copy ends with this error.
    Failed(E),
}

/// A reply is one to that step.
pub open spec fn answers<E>(reply: DaclReply<E>, step: DaclStep) -> bool {
    match step {
        DaclStep::Measure => reply is Measured,
        DaclStep::Read { .. } => reply is Done || reply is Failed,
        DaclStep::Control => reply is Bits || reply is Failed,
        DaclStep::Apply { .. } => reply is Done || reply is Failed,
    }
}

/// The fewest words of four bytes that hold some bytes.
pub open spec fn words_for(bytes: int) -> int {
    (bytes + 3) / 4
}

/// The parts of a descriptor that carry over its access list, and whether it is protected.
pub open spec fn list_information(control: u16) -> u32 {
    if control & PROTECTED_CONTROL != 0 {
        ACCESS_LIST | PROTECTED_LIST
    } else {
        ACCESS_LIST | UNPROTECTED_LIST
    }
}

/// What follows a reply. The measuring has to fail for want of a buffer and name its size;
/// any other error, there or later, ends the copy.
pub open spec fn dacl_follows<E>(step: DaclStep, reply: DaclReply<E>) -> DaclProgress<E> {
    match reply {
        DaclReply::Failed(error) => DaclProgress::Failed(error),
        DaclReply::Measured { bytes, code, error } => if code == Some(BUFFER_TOO_SMALL as i32)
            && bytes != 0 {
            DaclProgress::Next(DaclStep::Read { bytes, words: words_for(bytes as int) as usize })
        } else {
            DaclProgress::Failed(error)
        },
        DaclReply::Bits(control) => DaclProgress::Next(
            DaclStep::Apply { information: list_information(control) },
        ),
        DaclReply::Done => if step is Read {
            DaclProgress::Next(DaclStep::Control)
        } else {
            DaclProgress::Copied
        },
    }
}

/// Says what follows a reply to a step. A copy starts with [`DaclStep::Measure`].
pub fn copy_file_dacl<E>(step: DaclStep, reply: DaclReply<E>) -> (progress: DaclProgress<E>)
    requires
        answers(reply, step),
    ensures
        progress == dacl_follows(step, reply),
{
    match reply {
        DaclReply::Failed(error) => DaclProgress::Failed(error),
        DaclReply::Measured { bytes, code, error } => {
            let wanted: i32 = error_insufficient_buffer() as i32;
            match code {
                Some(code) if code == wanted && bytes != 0 => {
                    let words: usize = bytes as usize / 4 + (if bytes % 4 == 0 {
                        0
                    } else {
                        1
                    });
                    DaclProgress::Next(DaclStep::Read { bytes, words })
                },
                _ => DaclProgress::Failed(error),
            }
        },
        DaclReply::Bits(control) => {
            let inheritance: u32 = if control & se_dacl_protected() != 0 {
                protected_dacl_security_information()
            } else {
                unprotected_dacl_security_information()
            };
            DaclProgress::Next(
                DaclStep::Apply { information: dacl_security_information() | inheritance },
            )
        },
        DaclReply::Done => match step {
            DaclStep::Read { .. } => DaclProgress::Next(DaclStep::Control),
            _ => DaclProgress::Copied,
        },
    }
}

/// What follows some replies to a copy.
pub open spec fn dacl_run<E>(replies: Seq<DaclReply<E>>) -> DaclProgress<E>
    decreases replies.len(),
{
    if replies.len() == 0 {
        DaclProgress::Next(DaclStep::Measure)
    } else {
        match dacl_run(replies.drop_last()) {
            DaclProgress::Next(step) => dacl_follows(step, replies.last()),
            ended => ended,
        }
    }
}

/// Each reply of a copy answers the step that was asked for.
pub open spec fn all_answer<E>(replies: Seq<DaclReply<E>>) -> bool {
    forall|i: int|
        0 <= i < replies.len() ==> match #[trigger] dacl_run(replies.take(i)) {
            DaclProgress::Next(step) => answers(replies[i], step),
            _ => true,
        }
}

/// A copy that reports success did all of it: the descriptor was measured and read in that
/// size, its control bits were asked for, and its list was applied with the protection that
/// these bits show. Each of these went well.
pub proof fn law_copied_list_was_read_and_applied<E>(replies: Seq<DaclReply<E>>)
    requires
        all_answer(replies),
        dacl_run(replies) is Copied,
    ensures
        replies.len() >= 4,
        replies[0] matches DaclReply::Measured { bytes, code, error: _ } && bytes != 0 && code
            == Some(BUFFER_TOO_SMALL as i32) && dacl_run(replies.take(1)) == DaclProgress::<
            E,
        >::Next(DaclStep::Read { bytes, words: words_for(bytes as int) as usize }),
        replies[1] is Done,
        dacl_run(replies.take(2)) == DaclProgress::<E>::Next(DaclStep::Control),
        replies[2] matches DaclReply::Bits(control) && dacl_run(replies.take(3))
            == DaclProgress::<E>::Next(
            DaclStep::Apply { information: list_information(control) },
        ),
        replies[3] is Done,
{
    lemma_first_replies(replies);
}

/// A copy that meets an error ends with it: nothing is asked for any more, so nothing is applied
/// after a failure.
pub proof fn law_failure_ends_the_copy<E>(replies: Seq<DaclReply<E>>, number: int, error: E)
    requires
        0 <= number <= replies.len(),
        dacl_run(replies.take(number)) == DaclProgress::Failed(error) || number < replies.len()
            && dacl_run(replies.take(number)) is Next && replies[number] == DaclReply::Failed(
            error,
        ),
    ensures
        dacl_run(replies) == DaclProgress::Failed(error),
{
    if dacl_run(replies.take(number)) is Next {
        lemma_next_reply(replies, number);
        lemma_ended_stays(replies, number + 1);
    } else {
        lemma_ended_stays(replies, number);
    }
}

/// Every copy comes to an end: four replies are enough.
pub proof fn law_copy_ends<E>(replies: Seq<DaclReply<E>>)
    requires
        all_answer(replies),
        replies.len() >= 4,
    ensures
        !(dacl_run(replies) is Next),
{
    lemma_first_replies(replies);
}

/// One reply more leads on from the step that was asked for.
proof fn lemma_next_reply<E>(replies: Seq<DaclReply<E>>, number: int)
    requires
        0 <= number < replies.len(),
    ensures
        dacl_run(replies.take(number + 1)) == match dacl_run(replies.take(number)) {
            DaclProgress::Next(step) => dacl_follows(step, replies[number]),
            ended => ended,
        },
{
    assert(replies.take(number + 1).drop_last() =~= replies.take(number));
}

/// A copy that has ended stays as it is.
proof fn lemma_ended_stays<E>(replies: Seq<DaclReply<E>>, number: int)
    requires
        0 <= number <= replies.len(),
        !(dacl_run(replies.take(number)) is Next),
    ensures
        dacl_run(replies) == dacl_run(replies.take(number)),
    decreases replies.len() - number,
{
    if number == replies.len() {
        assert(replies.take(number) =~= replies);
    } else {
        lemma_next_reply(replies, number);
        lemma_ended_stays(replies, number + 1);
    }
}

/// What the first four replies lead to.
proof fn lemma_first_replies<E>(replies: Seq<DaclReply<E>>)
    requires
        all_answer(replies),
    ensures
        replies.len() < 4 ==> !(dacl_run(replies) is Copied),
        replies.len() >= 4 ==> !(dacl_run(replies) is Next),
        dacl_run(replies) is Copied ==> {
            &&& replies[0] matches DaclReply::Measured { bytes, code, error: _ }
            &&& bytes != 0 && code == Some(BUFFER_TOO_SMALL as i32)
            &&& dacl_run(replies.take(1)) == DaclProgress::<E>::Next(
                DaclStep::Read { bytes, words: words_for(bytes as int) as usize },
            )
            &&& replies[1] is Done
            &&& dacl_run(replies.take(2)) == DaclProgress::<E>::Next(DaclStep::Control)
            &&& replies[2] matches DaclReply::Bits(control)
            &&& dacl_run(replies.take(3)) == DaclProgress::<E>::Next(
                DaclStep::Apply { information: list_information(control) },
            )
            &&& replies[3] is Done
        },
{
    assert(replies.take(0) =~= Seq::empty());
    assert(replies.take(replies.len() as int) =~= replies);
    if replies.len() > 0 {
        lemma_next_reply(replies, 0);
        if !(dacl_run(replies.take(1)) is Next) {
            lemma_ended_stays(replies, 1);
        } else if replies.len() > 1 {
            lemma_next_reply(replies, 1);
            if !(dacl_run(replies.take(2)) is Next) {
                lemma_ended_stays(replies, 2);
            } else if replies.len() > 2 {
                lemma_next_reply(replies, 2);
                if !(dacl_run(replies.take(3)) is Next) {
                    lemma_ended_stays(replies, 3);
                } else if replies.len() > 3 {
                    lemma_next_reply(replies, 3);
                    lemma_ended_stays(replies, 4);
                }
            }
        }
    }
}

/// The buffer that a descriptor is read into holds it, with less than a word to spare.
pub proof fn law_descriptor_fits<E>(bytes: u32, error: E)
    requires
        bytes != 0,
    ensures
        dacl_follows(
            DaclStep::Measure,
            DaclReply::Measured { bytes, code: Some(BUFFER_TOO_SMALL as i32), error },
        ) matches DaclProgress::Next(DaclStep::Read { bytes: asked, words }) && asked == bytes
            && bytes <= 4 * words < bytes + 4,
{
}

/// The measuring leads on just where it fails for want of a buffer and asks for some bytes; then
/// that many are read, into the fewest words that hold them. Any other answer ends the copy with
/// the error that came with it.
pub proof fn law_measuring_has_to_ask_for_a_buffer<E>(bytes: u32, code: Option<i32>, error: E)
    ensures
        match dacl_follows(DaclStep::Measure, DaclReply::Measured { bytes, code, error }) {
            DaclProgress::Next(step) => {
                &&& code == Some(122i32) && bytes != 0
                &&& step matches DaclStep::Read { bytes: asked, words }
                &&& asked == bytes && bytes <= 4 * words < bytes + 4
            },
            DaclProgress::Copied => false,
            DaclProgress::Failed(reported) => reported == error && (code != Some(122i32) || bytes
                == 0),
        },
{
}

/// Whatever the control bits, the access list and one inheritance flag are applied and nothing
/// else: the protected flag where bit twelve is set, and the unprotected one otherwise. Bits that
/// agree in this one lead to the same.
pub proof fn law_nothing_but_the_list_is_applied<E>(control: u16, other: u16)
    ensures
        control & 0x1000 != 0 ==> dacl_follows(DaclStep::Control, DaclReply::<E>::Bits(control))
            == DaclProgress::<E>::Next(DaclStep::Apply { information: 0x8000_0004 }),
        control & 0x1000 == 0 ==> dacl_follows(DaclStep::Control, DaclReply::<E>::Bits(control))
            == DaclProgress::<E>::Next(DaclStep::Apply { information: 0x2000_0004 }),
        list_information(control) & !(ACCESS_LIST | PROTECTED_LIST | UNPROTECTED_LIST) == 0,
        control & 0x1000 != 0 ==> list_information(control) == ACCESS_LIST | PROTECTED_LIST,
        control & 0x1000 == 0 ==> list_information(control) == ACCESS_LIST | UNPROTECTED_LIST,
        control & 0x1000 == other & 0x1000 ==> list_information(control) == list_information(other),
{
    assert(4u32 | 0x8000_0000u32 == 0x8000_0004u32) by (bit_vector);
    assert(4u32 | 0x2000_0000u32 == 0x2000_0004u32) by (bit_vector);
    assert((4u32 | 0x8000_0000u32) & !(4u32 | 0x8000_0000u32 | 0x2000_0000u32) == 0)
        by (bit_vector);
    assert((4u32 | 0x2000_0000u32) & !(4u32 | 0x8000_0000u32 | 0x2000_0000u32) == 0)
        by (bit_vector);
}

/// A copy in which every step goes well copies the list: it is measured, read, asked for its
/// control bits and applied, in this order and with no further step.
pub proof fn law_good_replies_copy_the_list<E>(
    bytes: u32,
    error: E,
    control: u16,
    more: Seq<DaclReply<E>>,
)
    requires
        bytes != 0,
    ensures
        ({
            let replies = seq![
                DaclReply::Measured { bytes, code: Some(122i32), error },
                DaclReply::Done,
                DaclReply::Bits(control),
                DaclReply::Done,
            ];
            &&& dacl_run(replies.take(0)) == DaclProgress::<E>::Next(DaclStep::Measure)
            &&& dacl_run(replies.take(1)) matches DaclProgress::Next(DaclStep::Read {
                bytes: asked,
                words: _,
            })
            &&& asked == bytes
            &&& dacl_run(replies.take(2)) == DaclProgress::<E>::Next(DaclStep::Control)
            &&& dacl_run(replies.take(3)) matches DaclProgress::Next(DaclStep::Apply {
                information,
            })
            &&& information == if control & 0x1000 != 0 {
                0x8000_0004u32
            } else {
                0x2000_0004u32
            }
            &&& dacl_run(replies) is Copied
            &&& dacl_run(replies + more) is Copied
        }),
{
    let replies = seq![
        DaclReply::Measured { bytes, code: Some(122i32), error },
        DaclReply::Done,
        DaclReply::Bits(control),
        DaclReply::Done,
    ];
    law_nothing_but_the_list_is_applied::<E>(control, control);
    assert(replies.take(0) =~= Seq::empty());
    lemma_next_reply(replies, 0);
    lemma_next_reply(replies, 1);
    lemma_next_reply(replies, 2);
    lemma_next_reply(replies, 3);
    assert(replies.take(4) =~= replies);
    assert((replies + more).take(4) =~= replies);
    lemma_ended_stays(replies + more, 4);
}

/// What is applied keeps the protection of the source: it names the access list and exactly
/// one of the two flags, the protected one just where the source is protected.
pub proof fn law_protection_is_kept(control: u16)
    ensures
        list_information(control) & ACCESS_LIST == ACCESS_LIST,
        list_information(control) & PROTECTED_LIST != 0 <==> control & PROTECTED_CONTROL != 0,
        list_information(control) & UNPROTECTED_LIST != 0 <==> control & PROTECTED_CONTROL == 0,
{
    assert((4u32 | 0x8000_0000u32) & 4u32 == 4u32) by (bit_vector);
    assert((4u32 | 0x2000_0000u32) & 4u32 == 4u32) by (bit_vector);
    assert((4u32 | 0x8000_0000u32) & 0x8000_0000u32 != 0) by (bit_vector);
    assert((4u32 | 0x2000_0000u32) & 0x8000_0000u32 == 0) by (bit_vector);
    assert((4u32 | 0x8000_0000u32) & 0x2000_0000u32 == 0) by (bit_vector);
    assert((4u32 | 0x2000_0000u32) & 0x2000_0000u32 != 0) by (bit_vector);
}

} // verus!
