//! What the queue asks of the backing store, and what it hears back.
//!
//! The queue never touches a file. It hands its caller one `Action` at a time; the
//! caller performs it on the backing store and reports the `Outcome`.

use crate::error::{IoStep, QueueError};
use crate::format::{encode_item, encode_line, is_item, is_valid_item};
use vstd::prelude::*;

verus! {

/// One change to the backing store, as the proofs see it.
pub enum Step {
    /// Rename the current file to the staging file.
    RenameCurrentToStaging,
    /// Create an empty current file. It must not exist yet.
    CreateCurrent,
    /// Append the given text to the current file.
    Append(Seq<char>),
    /// Let the handle that the caller holds refer to the current file.
    SwapHandle,
    /// Delete the staging file.
    DeleteStaging,
    /// Rename the staging file to the current file.
    PromoteStaging,
}

/// One change to the backing store that the caller is to perform.
#[derive(Debug, PartialEq, Eq)]
pub enum Action {
    /// Rename the current file to the staging file.
    RenameCurrentToStaging,
    /// Create an empty current file. It must not exist yet.
    CreateCurrent,
    /// Append the given text, as it stands, to the current file.
    Append(String),
    /// Let the handle that the caller holds refer to the current file.
    SwapHandle,
    /// Delete the staging file.
    DeleteStaging,
    /// Rename the staging file to the current file.
    PromoteStaging,
}

impl View for Action {
    type V = Step;

    open spec fn view(&self) -> Step {
        match *self {
            Action::RenameCurrentToStaging => Step::RenameCurrentToStaging,
            Action::CreateCurrent => Step::CreateCurrent,
            Action::Append(text) => Step::Append(text@),
            Action::SwapHandle => Step::SwapHandle,
            Action::DeleteStaging => Step::DeleteStaging,
            Action::PromoteStaging => Step::PromoteStaging,
        }
    }
}

/// How the caller fared with an action.
#[derive(Debug, Clone, Copy, PartialEq, Eq, Structural)]
pub enum Outcome {
    /// The action took effect.
    Done,
    /// The action failed and changed nothing.
    Failed,
}

/// The step of file handling that a failure of `step` is reported under. Taking
/// over the handle of the new current file counts as opening it.
pub open spec fn io_step_of(step: Step) -> IoStep {
    match step {
        Step::RenameCurrentToStaging => IoStep::Rename,
        Step::CreateCurrent => IoStep::Create,
        Step::Append(_) => IoStep::Append,
        Step::SwapHandle => IoStep::Open,
        Step::DeleteStaging => IoStep::Delete,
        Step::PromoteStaging => IoStep::Rename,
    }
}

impl Action {
    /// The action that stores `item` at the end of the current file: to append the
    /// item and a line break. An item that is empty or holds a line break is refused.
    pub fn append(item: &str) -> (result: Result<Action, QueueError>)
        ensures
            match result {
                Ok(action) => is_item(item@) && action@ == Step::Append(encode_item(item@)),
                Err(e) => !is_item(item@) && e == QueueError::InvalidItem,
            },
    {
        if is_valid_item(item) {
            Ok(Action::Append(encode_line(item)))
        } else {
            Err(QueueError::InvalidItem)
        }
    }

    /// The step of file handling that a failure of this action is reported under.
    pub fn io_step(&self) -> (step: IoStep)
        ensures
            step == io_step_of(self@),
    {
        match self {
            Action::RenameCurrentToStaging => IoStep::Rename,
            Action::CreateCurrent => IoStep::Create,
            Action::Append(_) => IoStep::Append,
            Action::SwapHandle => IoStep::Open,
            Action::DeleteStaging => IoStep::Delete,
            Action::PromoteStaging => IoStep::Rename,
        }
    }
}

} // verus!
