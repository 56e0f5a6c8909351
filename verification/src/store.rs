//! A backing store held in memory.
//!
//! `Store` behaves as `Disk` says, step by step, without a file system. On it the
//! operations of the queue can be run whole, a crash can be staged by taking only
//! some of the steps of a replacement, and a restart can be tried on what is left.

use crate::action::{io_step_of, Action, Outcome, Step};
use crate::disk::{apply, attempt, lemma_attempt_bound, lemma_attempt_stops, lemma_run_one, run, Disk};
use crate::error::{IoStep, QueueError};
use crate::format::{decode, encode_item, is_item, is_terminated};
use crate::history::{items_after, lemma_op_keeps_sync, steps_of, Op};
use crate::queue::Queue;
use crate::recovery::{in_sync, lemma_load_in_sync, plan_recovery, recover};
use crate::rewrite::{script, Rewrite};
use vstd::prelude::*;
use vstd::string::StringExecFns;

verus! {

/// A backing store held in memory.
#[derive(Debug)]
pub struct Store {
    current: Option<String>,
    staging: Option<String>,
}

impl View for Store {
    type V = Disk;

    closed spec fn view(&self) -> Disk {
        Disk {
            current: match self.current {
                Some(content) => Some(content@),
                None => None,
            },
            staging: match self.staging {
                Some(content) => Some(content@),
                None => None,
            },
        }
    }
}

impl Store {
    /// A backing store with the given content of the current and of the staging file,
    /// `None` for a file that does not exist.
    pub fn new(current: Option<String>, staging: Option<String>) -> (store: Store)
        ensures
            store@.current == match current {
                Some(content) => Some(content@),
                None => None,
            },
            store@.staging == match staging {
                Some(content) => Some(content@),
                None => None,
            },
    {
        Store { current, staging }
    }

    /// Whether the current file exists.
    pub fn current_exists(&self) -> (exists: bool)
        ensures
            exists == (self@.current is Some),
    {
        self.current.is_some()
    }

    /// Whether the staging file exists.
    pub fn staging_exists(&self) -> (exists: bool)
        ensures
            exists == (self@.staging is Some),
    {
        self.staging.is_some()
    }

    /// The content of the current file, if it exists.
    pub fn current(&self) -> (content: Option<String>)
        ensures
            match content {
                Some(text) => self@.current == Some(text@),
                None => self@.current is None,
            },
    {
        match &self.current {
            Some(text) => Some(text.clone()),
            None => None,
        }
    }

    /// The content of the staging file, if it exists.
    pub fn staging(&self) -> (content: Option<String>)
        ensures
            match content {
                Some(text) => self@.staging == Some(text@),
                None => self@.staging is None,
            },
    {
        match &self.staging {
            Some(text) => Some(text.clone()),
            None => None,
        }
    }

    /// Performs `action` on this store and tells how it went.
    pub fn perform(&mut self, action: &Action) -> (outcome: Outcome)
        ensures
            match apply(old(self)@, action@) {
                Some(disk) => outcome == Outcome::Done && final(self)@ == disk,
                None => outcome == Outcome::Failed && final(self)@ == old(self)@,
            },
    {
        match action {
            Action::RenameCurrentToStaging => {
                if self.current.is_some() {
                    self.staging = self.current.take();
                    Outcome::Done
                } else {
                    Outcome::Failed
                }
            },
            Action::CreateCurrent => {
                if self.current.is_some() {
                    Outcome::Failed
                } else {
                    self.current = Some(String::new());
                    Outcome::Done
                }
            },
            Action::Append(text) => {
                match &mut self.current {
                    Some(content) => {
                        content.append(text.as_str());
                        Outcome::Done
                    },
                    None => Outcome::Failed,
                }
            },
            Action::SwapHandle => {
                if self.current.is_some() {
                    Outcome::Done
                } else {
                    Outcome::Failed
                }
            },
            Action::DeleteStaging => {
                if self.staging.is_some() {
                    self.staging = None;
                    Outcome::Done
                } else {
                    Outcome::Failed
                }
            },
            Action::PromoteStaging => {
                if self.staging.is_some() {
                    self.current = self.staging.take();
                    Outcome::Done
                } else {
                    Outcome::Failed
                }
            },
        }
    }

    /// Does what a restart does: repairs what a crash left behind, or creates the
    /// current file on the first run, then reads the queue from the current file.
    /// Where both files exist, nothing is changed and corruption is reported. The
    /// queue that is read agrees with the store if every line of the file is ended.
    pub fn restart(&mut self) -> (result: Result<Queue, QueueError>)
        ensures
            match recover(old(self)@) {
                Ok(repaired) => {
                    &&& final(self)@ == repaired
                    &&& repaired.current is Some
                    &&& result matches Ok(queue) && queue@ == decode(repaired.current->0) && (
                    is_terminated(repaired.current->0) ==> in_sync(queue@, repaired))
                },
                Err(e) => {
                    &&& final(self)@ == old(self)@
                    &&& result matches Err(failure) && failure == e
                },
            },
    {
        proof {
            if let Ok(repaired) = recover(self@) {
                if repaired.current is Some && is_terminated(repaired.current->0) {
                    lemma_load_in_sync(repaired.current->0);
                }
            }
        }
        match plan_recovery(self.current_exists(), self.staging_exists()) {
            Err(e) => {
                return Err(e);
            },
            Ok(None) => {},
            Ok(Some(action)) => {
                // The step that was decided on does not fail on the state it was decided for.
                if self.perform(&action) == Outcome::Failed {
                    return Err(QueueError::Io(action.io_step()));
                }
            },
        }
        match self.current() {
            Some(content) => Ok(Queue::new(content.as_str())),
            // After the repair the current file exists.
            None => Err(QueueError::Io(IoStep::Read)),
        }
    }

    /// Takes the steps of `rewrite` that are still due, one by one, until all are
    /// taken or one fails. A step that fails is reported under the step of file
    /// handling that it belongs to, and stays due.
    pub fn replace(&mut self, rewrite: &mut Rewrite) -> (result: Result<(), QueueError>)
        ensures
            final(rewrite).items() == old(rewrite).items(),
            old(rewrite).done() <= script(old(rewrite).items()).len(),
            ({
                let steps = script(old(rewrite).items()).skip(old(rewrite).done() as int);
                let (after, taken) = attempt(old(self)@, steps);
                &&& final(self)@ == after
                &&& final(rewrite).done() == old(rewrite).done() + taken
                &&& result == if taken == steps.len() {
                    Ok::<(), QueueError>(())
                } else {
                    Err::<(), QueueError>(QueueError::Io(io_step_of(steps[taken as int])))
                }
            }),
    {
        let ghost start = self@;
        let ghost first = rewrite.done() as int;
        let ghost all = script(rewrite.items());
        loop
            invariant
                start == old(self)@,
                rewrite.items() == old(rewrite).items(),
                all == script(rewrite.items()),
                first == old(rewrite).done(),
                first <= rewrite.done(),
                first <= all.len() ==> attempt(start, all.skip(first).take(rewrite.done() - first)) == (
                    self@,
                    (rewrite.done() - first) as nat,
                ),
            decreases all.len() - rewrite.done(),
        {
            let ghost taken = rewrite.done() - first;
            let ghost steps = all.skip(first);
            match rewrite.action() {
                None => {
                    proof {
                        assert(steps.take(taken) == steps);
                    }
                    return Ok(());
                },
                Some(action) => {
                    proof {
                        assert(steps.take(taken + 1).drop_last() == steps.take(taken));
                    }
                    let outcome = self.perform(&action);
                    let result = rewrite.record(outcome);
                    if outcome == Outcome::Failed {
                        proof {
                            lemma_attempt_stops(start, steps, taken);
                        }
                        return result;
                    }
                },
            }
        }
    }

    /// Runs `add` whole: appends the line of `item` to the current file, then puts
    /// the item at the back of `queue`. An item that is refused, or a current file
    /// that does not exist, leaves both as they were.
    pub fn add(&mut self, queue: &mut Queue, item: &str) -> (result: Result<(), QueueError>)
        ensures
            !is_item(item@) ==> {
                &&& result == Err::<(), QueueError>(QueueError::InvalidItem)
                &&& final(self)@ == old(self)@
                &&& final(queue)@ == old(queue)@
            },
            is_item(item@) ==> match apply(old(self)@, Step::Append(encode_item(item@))) {
                Some(appended) => {
                    &&& result is Ok
                    &&& final(self)@ == appended
                    &&& final(queue)@ == old(queue)@.push(item@)
                },
                None => {
                    &&& result == Err::<(), QueueError>(QueueError::Io(IoStep::Append))
                    &&& final(self)@ == old(self)@
                    &&& final(queue)@ == old(queue)@
                },
            },
            in_sync(old(queue)@, old(self)@) ==> {
                &&& in_sync(final(queue)@, final(self)@)
                &&& final(queue)@ == items_after(old(queue)@, Op::Add(item@))
                &&& run(old(self)@, steps_of(old(queue)@, Op::Add(item@))) == Some(final(self)@)
                &&& result is Ok <==> is_item(item@)
            },
    {
        proof {
            if in_sync(queue@, self@) {
                lemma_op_keeps_sync(queue@, self@, Op::Add(item@));
                lemma_run_one(self@, Step::Append(encode_item(item@)));
            }
        }
        match Action::append(item) {
            Err(e) => Err(e),
            Ok(action) => {
                if self.perform(&action) == Outcome::Failed {
                    return Err(QueueError::Io(action.io_step()));
                }
                queue.add(item)
            },
        }
    }

    /// Runs `remove` whole: takes the first item equal to `item` out of `queue`, then
    /// replaces the current file by one that holds the items that are left. If no
    /// item is equal to `item`, the queue and the files stay as they were.
    pub fn remove(&mut self, queue: &mut Queue, item: &str) -> (result: Result<String, QueueError>)
        ensures
            final(queue)@ == old(queue)@.remove_value(item@),
            !old(queue)@.contains(item@) ==> {
                &&& result == Err::<String, QueueError>(QueueError::NotFound)
                &&& final(self)@ == old(self)@
                &&& final(queue)@ == old(queue)@
            },
            old(queue)@.contains(item@) ==> ({
                let steps = script(final(queue)@);
                let (after, taken) = attempt(old(self)@, steps);
                &&& final(self)@ == after
                &&& match result {
                    Ok(removed) => removed@ == item@ && taken == steps.len(),
                    Err(e) => taken < steps.len() && e == QueueError::Io(
                        io_step_of(steps[taken as int]),
                    ),
                }
            }),
            in_sync(old(queue)@, old(self)@) ==> {
                &&& in_sync(final(queue)@, final(self)@)
                &&& final(queue)@ == items_after(old(queue)@, Op::Remove(item@))
                &&& run(old(self)@, steps_of(old(queue)@, Op::Remove(item@))) == Some(final(self)@)
                &&& result is Ok <==> old(queue)@.contains(item@)
            },
    {
        proof {
            if in_sync(queue@, self@) {
                lemma_op_keeps_sync(queue@, self@, Op::Remove(item@));
            }
            queue@.index_of_first_ensures(item@);
        }
        match queue.remove(item) {
            Err(e) => Err(e),
            Ok((removed, mut rewrite)) => {
                proof {
                    assert(script(rewrite.items()).skip(0) == script(rewrite.items()));
                    lemma_attempt_bound(self@, script(rewrite.items()));
                }
                match self.replace(&mut rewrite) {
                    Ok(()) => Ok(removed),
                    Err(e) => Err(e),
                }
            },
        }
    }

    /// Runs `pop` whole: takes the item at the front out of `queue`, then replaces
    /// the current file by one that holds the items that are left. If the queue is
    /// empty, it and the files stay as they were.
    pub fn pop(&mut self, queue: &mut Queue) -> (result: Result<String, QueueError>)
        ensures
            old(queue)@.len() == 0 ==> {
                &&& result == Err::<String, QueueError>(QueueError::EmptyQueue)
                &&& final(self)@ == old(self)@
                &&& final(queue)@ == old(queue)@
            },
            old(queue)@.len() > 0 ==> ({
                let steps = script(final(queue)@);
                let (after, taken) = attempt(old(self)@, steps);
                &&& final(queue)@ == old(queue)@.drop_first()
                &&& final(self)@ == after
                &&& match result {
                    Ok(front) => front@ == old(queue)@.first() && taken == steps.len(),
                    Err(e) => taken < steps.len() && e == QueueError::Io(
                        io_step_of(steps[taken as int]),
                    ),
                }
            }),
            in_sync(old(queue)@, old(self)@) ==> {
                &&& in_sync(final(queue)@, final(self)@)
                &&& final(queue)@ == items_after(old(queue)@, Op::Pop)
                &&& run(old(self)@, steps_of(old(queue)@, Op::Pop)) == Some(final(self)@)
                &&& result is Ok <==> old(queue)@.len() > 0
            },
    {
        proof {
            if in_sync(queue@, self@) {
                lemma_op_keeps_sync(queue@, self@, Op::Pop);
            }
        }
        match queue.pop() {
            Err(e) => Err(e),
            Ok((front, mut rewrite)) => {
                proof {
                    assert(script(rewrite.items()).skip(0) == script(rewrite.items()));
                    lemma_attempt_bound(self@, script(rewrite.items()));
                }
                match self.replace(&mut rewrite) {
                    Ok(()) => Ok(front),
                    Err(e) => Err(e),
                }
            },
        }
    }
}

} // verus!
