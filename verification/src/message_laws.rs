//! Laws of messages: they name what they are about.
use vstd::prelude::*;
use crate::credentials::CredentialDerivationError;
use crate::startup::StartupRecoveryError;
use crate::startup_messages::around;
use crate::text::{decimal_digits, stands_at};

verus! {

/// Whether a text holds another.
pub open spec fn holds(text: Seq<char>, part: Seq<char>) -> bool {
    exists|at: int| #[trigger] stands_at(text, part, at)
}

proof fn lemma_around(prefix: Seq<char>, middle: Seq<char>, suffix: Seq<char>, rest: Seq<char>)
    ensures
        holds(around(prefix, middle, suffix), middle),
        holds(around(prefix, middle, suffix) + rest, middle),
{
    let at = prefix.len() as int;
    let text = around(prefix, middle, suffix);
    assert(text.subrange(at, at + middle.len()) =~= middle);
    assert(stands_at(text, middle, at));
    let longer = text + rest;
    assert(longer.subrange(at, at + middle.len()) =~= middle);
    assert(stands_at(longer, middle, at));
}

/// Whether a fault of startup is one of a task.
pub open spec fn is_of_a_task(error: StartupRecoveryError) -> bool {
    !(error is TaskLimitReached || error is AllocationFailed || error is MissingSession || error is TaskIdExhausted
        || error is QueueRepairInvariant || error is DuplicateJournalId || error is DuplicatePersistedTaskId || error
        is QueueNotDense || error is SchedulerRestore)
}

/// The message of a fault that is of a task names that task, and one that has a cause names the
/// cause.
pub proof fn law_messages_name_their_task(error: StartupRecoveryError, gid: Seq<char>, detail: Seq<char>)
    ensures
        is_of_a_task(error) ==> holds(error.spec_message(gid, detail), gid),
        error is SchedulerRestore || error is InvalidHostKeyChallenge || error is InvalidDeadline || error
            is QueueNotDense ==> holds(error.spec_message(gid, detail), detail),
        error matches StartupRecoveryError::QueueNotDense { expected, actual, .. } ==> holds(
            error.spec_message(gid, detail),
            decimal_digits(actual as nat),
        ),
        error matches StartupRecoveryError::DuplicatePersistedTaskId(task) ==> holds(
            error.spec_message(gid, detail),
            decimal_digits(task.0 as nat),
        ),
{
    let text = error.spec_message(gid, detail);
    let empty = Seq::<char>::empty();
    assert forall|prefix: Seq<char>, suffix: Seq<char>| holds(#[trigger] around(prefix, gid, suffix), gid) by {
        lemma_around(prefix, gid, suffix, empty);
    }
    match error {
        StartupRecoveryError::InvalidHostKeyChallenge { .. } => {
            let head = around("task "@, gid, " has an invalid host-key challenge: "@);
            lemma_around("task "@, gid, " has an invalid host-key challenge: "@, detail);
            lemma_around(head, detail, empty, empty);
            assert(around(head, detail, empty) =~= text);
        },
        StartupRecoveryError::InvalidDeadline { kind, .. } => {
            let head = around("task "@, gid, " has an invalid "@);
            let tail = around(kind.spec_code(), " deadline: "@, detail);
            lemma_around("task "@, gid, " has an invalid "@, tail);
            let before = head + kind.spec_code() + " deadline: "@;
            lemma_around(before, detail, empty, empty);
            assert(around(before, detail, empty) =~= text);
        },
        StartupRecoveryError::QueueNotDense { expected, actual, .. } => {
            let tail = around(" is not dense; expected "@, decimal_digits(expected as nat), ""@);
            let rest = " queue position "@ + decimal_digits(actual as nat) + tail;
            lemma_around(empty, detail, rest, empty);
            assert(around(empty, detail, rest) =~= text);
            lemma_around(detail + " queue position "@, decimal_digits(actual as nat), tail, empty);
            assert(around(detail + " queue position "@, decimal_digits(actual as nat), tail) =~= text);
        },
        StartupRecoveryError::SchedulerRestore(_) => {
            lemma_around("scheduler restore failed: "@, detail, empty, empty);
            assert(around("scheduler restore failed: "@, detail, empty) =~= text);
        },
        StartupRecoveryError::DuplicatePersistedTaskId(task) => {
            let head = "duplicate persisted journal task id "@;
            lemma_around(head, decimal_digits(task.0 as nat), empty, empty);
            assert(around(head, decimal_digits(task.0 as nat), empty) =~= text);
        },
        _ => {},
    }
}

/// The message of a fault in a task's sources names that task.
pub proof fn law_source_messages_name_their_task(error: CredentialDerivationError, gid: Seq<char>, detail: Seq<char>)
    requires
        !(error is AllocationFailed || error is TooManyTasks || error is TooManySourceSets),
    ensures
        holds(error.spec_message(gid, detail), gid),
{
    assert forall|prefix: Seq<char>, suffix: Seq<char>| holds(#[trigger] around(prefix, gid, suffix), gid) by {
        lemma_around(prefix, gid, suffix, Seq::<char>::empty());
    }
}

} // verus!
