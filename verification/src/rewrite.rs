//! The replacement of the current file by one that holds a given sequence of items.
//!
//! The file is never changed in place. The old file is set aside under the staging
//! name, a new file is created and filled line by line, the caller's handle moves to
//! it, and only then is the old file deleted. The order of these steps is what makes
//! a crash recoverable, so it is fixed here and walked one step at a time.

use crate::action::{io_step_of, Action, Outcome, Step};
use crate::error::{IoStep, QueueError};
use crate::format::{encode_item, encode_line};
use vstd::prelude::*;

verus! {

/// The steps that replace the current file by one that holds `items`, in the order
/// in which they are taken.
pub open spec fn script(items: Seq<Seq<char>>) -> Seq<Step> {
    seq![Step::RenameCurrentToStaging, Step::CreateCurrent] + items.map_values(
        |item: Seq<char>| Step::Append(encode_item(item)),
    ) + seq![Step::SwapHandle, Step::DeleteStaging]
}

/// Which kind of step is due.
#[derive(Debug)]
enum Stage {
    /// Setting the old file aside.
    Rename,
    /// Creating the new file.
    Create,
    /// Writing the lines of the new file, one step for each.
    Write,
    /// Moving the caller's handle to the new file.
    Swap,
    /// Deleting the old file.
    Delete,
    /// No step is due.
    Finished,
}

/// A replacement of the current file that is under way: the items that the new file
/// is to hold, and how many steps of `script` have been taken.
#[derive(Debug)]
pub struct Rewrite {
    items: Vec<String>,
    stage: Stage,
    /// While lines are written: the number of lines that the new file holds.
    written: usize,
}

impl Rewrite {
    #[verifier::type_invariant]
    spec fn inv(&self) -> bool {
        self.stage is Write ==> self.written < self.items.len()
    }

    /// The items that the new file is to hold.
    pub closed spec fn items(&self) -> Seq<Seq<char>> {
        self.items.deep_view()
    }

    /// The number of steps that have been taken.
    pub closed spec fn done(&self) -> nat {
        match self.stage {
            Stage::Rename => 0,
            Stage::Create => 1,
            Stage::Write => (2 + self.written) as nat,
            Stage::Swap => (2 + self.items.len()) as nat,
            Stage::Delete => (3 + self.items.len()) as nat,
            Stage::Finished => (4 + self.items.len()) as nat,
        }
    }

    /// All steps have been taken.
    pub open spec fn is_finished(&self) -> bool {
        self.done() == script(self.items()).len()
    }

    /// A replacement by a file that holds `items`, of which no step has been taken.
    pub fn new(items: Vec<String>) -> (rewrite: Rewrite)
        ensures
            rewrite.items() == items.deep_view(),
            rewrite.done() == 0,
    {
        Rewrite { items, stage: Stage::Rename, written: 0 }
    }

    /// The step to take now, or `None` when all have been taken.
    pub fn action(&self) -> (next: Option<Action>)
        ensures
            self.done() <= script(self.items()).len(),
            match next {
                Some(action) => {
                    &&& !self.is_finished()
                    &&& action@ == script(self.items())[self.done() as int]
                },
                None => self.is_finished(),
            },
    {
        proof {
            use_type_invariant(self);
        }
        match self.stage {
            Stage::Rename => Some(Action::RenameCurrentToStaging),
            Stage::Create => Some(Action::CreateCurrent),
            Stage::Write => Some(Action::Append(encode_line(self.items[self.written].as_str()))),
            Stage::Swap => Some(Action::SwapHandle),
            Stage::Delete => Some(Action::DeleteStaging),
            Stage::Finished => None,
        }
    }

    /// Takes note of how the step that `action` returned went. After `Done` the next
    /// step is due. After `Failed` the same step stays due, and the failure is
    /// returned under the step of file handling that it belongs to. When all steps
    /// have been taken, nothing changes.
    pub fn record(&mut self, outcome: Outcome) -> (result: Result<(), QueueError>)
        ensures
            final(self).items() == old(self).items(),
            old(self).is_finished() ==> {
                &&& result is Ok
                &&& final(self).done() == old(self).done()
            },
            !old(self).is_finished() && outcome is Done ==> {
                &&& result is Ok
                &&& final(self).done() == old(self).done() + 1
            },
            !old(self).is_finished() && outcome is Failed ==> {
                &&& result == Err::<(), QueueError>(
                    QueueError::Io(io_step_of(script(old(self).items())[old(self).done() as int])),
                )
                &&& final(self).done() == old(self).done()
            },
    {
        proof {
            use_type_invariant(&*self);
        }
        match outcome {
            Outcome::Failed => match self.stage {
                Stage::Rename => Err(QueueError::Io(IoStep::Rename)),
                Stage::Create => Err(QueueError::Io(IoStep::Create)),
                Stage::Write => Err(QueueError::Io(IoStep::Append)),
                Stage::Swap => Err(QueueError::Io(IoStep::Open)),
                Stage::Delete => Err(QueueError::Io(IoStep::Delete)),
                Stage::Finished => Ok(()),
            },
            Outcome::Done => {
                match self.stage {
                    Stage::Rename => {
                        self.stage = Stage::Create;
                    },
                    Stage::Create => {
                        self.written = 0;
                        if self.items.len() > 0 {
                            self.stage = Stage::Write;
                        } else {
                            self.stage = Stage::Swap;
                        }
                    },
                    Stage::Write => {
                        if self.written + 1 < self.items.len() {
                            self.written = self.written + 1;
                        } else {
                            self.stage = Stage::Swap;
                        }
                    },
                    Stage::Swap => {
                        self.stage = Stage::Delete;
                    },
                    Stage::Delete => {
                        self.stage = Stage::Finished;
                    },
                    Stage::Finished => {},
                }
                Ok(())
            },
        }
    }
}

} // verus!
