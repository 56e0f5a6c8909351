//! The backing store as the queue understands it: two files, each of which exists or
//! does not, and what each step does to them.
//!
//! This is the model of the file system that the proofs of this crate rest on. That
//! the files behave like it is assumed, not proved.

use crate::action::Step;
use vstd::prelude::*;

verus! {

/// The state of the backing store: the content of the current file and of the
/// staging file, `None` for a file that does not exist.
pub struct Disk {
    pub current: Option<Seq<char>>,
    pub staging: Option<Seq<char>>,
}

/// The state of the backing store after `step`, or `None` if the step fails on
/// `disk`. A step that fails changes nothing. Renaming replaces a file that already
/// has the new name.
pub open spec fn apply(disk: Disk, step: Step) -> Option<Disk> {
    match step {
        Step::RenameCurrentToStaging => match disk.current {
            Some(content) => Some(Disk { current: None, staging: Some(content) }),
            None => None,
        },
        Step::CreateCurrent => match disk.current {
            Some(_) => None,
            None => Some(Disk { current: Some(Seq::empty()), staging: disk.staging }),
        },
        Step::Append(text) => match disk.current {
            Some(content) => Some(Disk { current: Some(content + text), staging: disk.staging }),
            None => None,
        },
        Step::SwapHandle => match disk.current {
            Some(_) => Some(disk),
            None => None,
        },
        Step::DeleteStaging => match disk.staging {
            Some(_) => Some(Disk { current: disk.current, staging: None }),
            None => None,
        },
        Step::PromoteStaging => match disk.staging {
            Some(content) => Some(Disk { current: Some(content), staging: None }),
            None => None,
        },
    }
}

/// Takes `steps` on `disk` in order until one of them fails: the state that is
/// reached, and the number of steps that were taken.
pub open spec fn attempt(disk: Disk, steps: Seq<Step>) -> (Disk, nat)
    decreases steps.len(),
{
    if steps.len() == 0 {
        (disk, 0)
    } else {
        let (before, taken) = attempt(disk, steps.drop_last());
        if taken < steps.len() - 1 {
            (before, taken)
        } else {
            match apply(before, steps.last()) {
                Some(after) => (after, taken + 1),
                None => (before, taken),
            }
        }
    }
}

/// The state of the backing store after all of `steps`, taken in order, or `None` if
/// one of them fails.
pub open spec fn run(disk: Disk, steps: Seq<Step>) -> Option<Disk> {
    let (after, taken) = attempt(disk, steps);
    if taken == steps.len() {
        Some(after)
    } else {
        None
    }
}

/// Taking a single step is applying it.
pub proof fn lemma_run_one(disk: Disk, step: Step)
    ensures
        run(disk, seq![step]) == apply(disk, step),
{
    assert(attempt(disk, seq![step].drop_last()) == (disk, 0nat));
}

/// No more steps are taken than there are.
pub proof fn lemma_attempt_bound(disk: Disk, steps: Seq<Step>)
    ensures
        attempt(disk, steps).1 <= steps.len(),
    decreases steps.len(),
{
    if steps.len() > 0 {
        lemma_attempt_bound(disk, steps.drop_last());
    }
}

/// Steps that follow one that fails are not taken: if the first `taken` of `steps`
/// succeed and the next one fails, the attempt ends there.
pub proof fn lemma_attempt_stops(disk: Disk, steps: Seq<Step>, taken: int)
    requires
        0 <= taken < steps.len(),
        attempt(disk, steps.take(taken)) == (attempt(disk, steps.take(taken)).0, taken as nat),
        apply(attempt(disk, steps.take(taken)).0, steps[taken]) is None,
    ensures
        attempt(disk, steps) == attempt(disk, steps.take(taken)),
    decreases steps.len(),
{
    let front = steps.drop_last();
    if taken < steps.len() - 1 {
        assert(front.take(taken) == steps.take(taken));
        lemma_attempt_stops(disk, front, taken);
    } else {
        assert(steps.take(taken) == front);
    }
}

} // verus!
