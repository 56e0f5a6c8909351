//! What a restart does to the backing store, and what it finds after a crash.
//!
//! In the steady state only the current file exists. A replacement of the current
//! file passes through states in which only the staging file exists, or both. A
//! restart repairs the first kind by taking the staging file back as the current
//! file, which undoes the replacement that was under way. It refuses the second
//! kind: the current file may be half written, and nothing is picked silently.

use crate::action::{Action, Step};
use crate::disk::{apply, run, Disk};
use crate::error::QueueError;
use crate::format::{all_lines, decode, encode, encode_item, is_item, is_terminated};
use crate::format::{lemma_decode_encode, lemma_decode_lines, lemma_encode_decode};
use crate::rewrite::script;
use vstd::prelude::*;

verus! {

/// What a restart has to do before the current file can be read, given which of the
/// two files exist: nothing, or one step, or it has to give up.
pub open spec fn recovery_step(current_exists: bool, staging_exists: bool) -> Result<
    Option<Step>,
    QueueError,
> {
    if current_exists && staging_exists {
        Err(QueueError::CorruptionDetected)
    } else if staging_exists {
        Ok(Some(Step::PromoteStaging))
    } else if current_exists {
        Ok(None)
    } else {
        Ok(Some(Step::CreateCurrent))
    }
}

/// Decides what a restart has to do before the current file can be read, given
/// which of the two files exist. Both: that is reported as corruption and nothing
/// is to be done. Only the staging file: it is to be taken back as the current file.
/// Only the current file: nothing is to be done. Neither: an empty current file is
/// to be created.
pub fn plan_recovery(current_exists: bool, staging_exists: bool) -> (plan: Result<
    Option<Action>,
    QueueError,
>)
    ensures
        match recovery_step(current_exists, staging_exists) {
            Ok(Some(step)) => plan matches Ok(Some(action)) && action@ == step,
            Ok(None) => plan matches Ok(None),
            Err(e) => plan matches Err(failure) && failure == e,
        },
{
    if current_exists && staging_exists {
        Err(QueueError::CorruptionDetected)
    } else if staging_exists {
        Ok(Some(Action::PromoteStaging))
    } else if current_exists {
        Ok(None)
    } else {
        Ok(Some(Action::CreateCurrent))
    }
}

/// The backing store as a restart leaves it, or the reason why it gives up. Where
/// both files exist, it reports corruption. Else it leaves the steady state, in which
/// only the current file exists: with the content of the staging file, if there was
/// one; else with its own content; else empty.
pub open spec fn recover(disk: Disk) -> Result<Disk, QueueError> {
    match (disk.current, disk.staging) {
        (Some(_), Some(_)) => Err(QueueError::CorruptionDetected),
        (None, Some(content)) => Ok(Disk { current: Some(content), staging: None }),
        (Some(_), None) => Ok(disk),
        (None, None) => Ok(Disk { current: Some(Seq::empty()), staging: None }),
    }
}

/// The queue and the backing store agree: only the current file exists, and it holds
/// the items of the queue, one per line.
pub open spec fn in_sync(items: Seq<Seq<char>>, disk: Disk) -> bool {
    &&& all_lines(items)
    &&& disk.current == Some(encode(items))
    &&& disk.staging is None
}

/// The state of the backing store after the first `taken` steps of the replacement
/// of the current file by one that holds `items`, begun in the steady state `disk`.
pub open spec fn during_rewrite(disk: Disk, items: Seq<Seq<char>>, taken: int) -> Disk {
    if taken <= 0 {
        disk
    } else if taken == 1 {
        Disk { current: None, staging: disk.current }
    } else if taken <= items.len() + 2 {
        Disk { current: Some(encode(items.take(taken - 2))), staging: disk.current }
    } else if taken == items.len() + 3 {
        Disk { current: Some(encode(items)), staging: disk.current }
    } else {
        Disk { current: Some(encode(items)), staging: None }
    }
}

/// What `recovery_step` decides is what `recover` says: where it gives up, so does
/// `recover`; where it asks for nothing, the backing store is in the steady state
/// already; where it asks for a step, that step does not fail, and leads to the state
/// that `recover` gives.
pub proof fn lemma_recovery_step(disk: Disk)
    ensures
        match recovery_step(disk.current is Some, disk.staging is Some) {
            Err(e) => recover(disk) == Err::<Disk, QueueError>(e),
            Ok(None) => recover(disk) == Ok::<Disk, QueueError>(disk),
            Ok(Some(step)) => apply(disk, step) matches Some(repaired) && recover(disk) == Ok::<
                Disk,
                QueueError,
            >(repaired),
        },
{
}

/// The steps of a replacement, begun in the steady state, never fail on the backing
/// store, and lead through the states that `during_rewrite` gives.
pub proof fn lemma_rewrite_walk(disk: Disk, items: Seq<Seq<char>>, taken: int)
    requires
        disk.current is Some,
        disk.staging is None,
        0 <= taken <= script(items).len(),
    ensures
        run(disk, script(items).take(taken)) == Some(during_rewrite(disk, items, taken)),
    decreases taken,
{
    let steps = script(items);
    if taken > 0 {
        lemma_rewrite_walk(disk, items, taken - 1);
        assert(steps.take(taken).drop_last() == steps.take(taken - 1));
        // The number of lines that the new file holds after this step.
        let written = taken - 2;
        if 1 <= written <= items.len() {
            assert(items.take(written).drop_last() == items.take(written - 1));
        }
        if written >= items.len() {
            assert(items.take(items.len() as int) == items);
        }
    }
}

/// A replacement that runs to its end leaves the queue and the backing store in
/// agreement.
pub proof fn lemma_rewrite_restores_sync(disk: Disk, items: Seq<Seq<char>>)
    requires
        disk.current is Some,
        disk.staging is None,
        all_lines(items),
    ensures
        run(disk, script(items)) matches Some(replaced) && in_sync(items, replaced),
{
    let steps = script(items);
    lemma_rewrite_walk(disk, items, steps.len() as int);
    assert(steps.take(steps.len() as int) == steps);
}

/// A crash after any number of steps of a replacement leaves a backing store on
/// which a restart does one of three things. Before the current file has been set
/// aside, nothing has changed. While only the staging file exists, the restart takes
/// it back: the steady state from before the replacement returns, and the removal
/// that caused the replacement is undone. While both files exist, the restart
/// reports corruption; the staging file still holds the complete old content. After
/// the last step the new steady state stands. A half-written current file is never
/// taken for the queue.
pub proof fn lemma_crash_during_rewrite(disk: Disk, items: Seq<Seq<char>>, taken: int)
    requires
        disk.current is Some,
        disk.staging is None,
        0 <= taken <= script(items).len(),
    ensures
        run(disk, script(items).take(taken)) matches Some(crashed) && {
            &&& taken <= 1 ==> recover(crashed) == Ok::<Disk, QueueError>(disk)
            &&& 1 < taken < script(items).len() ==> {
                &&& recover(crashed) == Err::<Disk, QueueError>(QueueError::CorruptionDetected)
                &&& crashed.staging == disk.current
            }
            &&& taken == script(items).len() ==> {
                &&& recover(crashed) == Ok::<Disk, QueueError>(crashed)
                &&& crashed == (Disk { current: Some(encode(items)), staging: None })
            }
        },
{
    lemma_rewrite_walk(disk, items, taken);
}

/// A crash right after the current file has been set aside is undone: the restart
/// finds only the staging file, takes it back, and reads the items that the queue
/// held before the removal. No staging file is left. This holds whatever the
/// replacement was going to write.
pub proof fn lemma_crash_after_rename_is_undone(
    items: Seq<Seq<char>>,
    disk: Disk,
    left: Seq<Seq<char>>,
)
    requires
        in_sync(items, disk),
    ensures
        run(disk, script(left).take(1)) matches Some(crashed) && {
            &&& crashed.current is None
            &&& crashed.staging is Some
            &&& recover(crashed) matches Ok(repaired) && {
                &&& in_sync(items, repaired)
                &&& repaired.staging is None
                &&& repaired.current matches Some(content) && decode(content) == items
            }
        },
{
    lemma_rewrite_walk(disk, left, 1);
    lemma_sync_reads_back(items, disk);
}

/// Appending the line of a valid item keeps the queue and the backing store in
/// agreement.
pub proof fn lemma_add_keeps_sync(items: Seq<Seq<char>>, disk: Disk, item: Seq<char>)
    requires
        in_sync(items, disk),
        is_item(item),
    ensures
        apply(disk, Step::Append(encode_item(item))) matches Some(appended) && in_sync(
            items.push(item),
            appended,
        ),
{
    assert(items.push(item).drop_last() == items);
}

/// While the queue and the backing store agree, reading the current file line by
/// line gives exactly the items of the queue.
pub proof fn lemma_sync_reads_back(items: Seq<Seq<char>>, disk: Disk)
    requires
        in_sync(items, disk),
    ensures
        disk.current matches Some(content) && decode(content) == items,
{
    lemma_decode_encode(items);
}

/// A queue read from a current file in which every line is ended agrees with the
/// backing store that holds this file alone.
pub proof fn lemma_load_in_sync(content: Seq<char>)
    requires
        is_terminated(content),
    ensures
        in_sync(decode(content), (Disk { current: Some(content), staging: None })),
{
    lemma_decode_lines(content);
    lemma_encode_decode(content);
}

} // verus!
