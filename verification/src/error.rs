//! The failures that the queue reports.

use vstd::prelude::*;

verus! {

/// The step of file handling at which the backing store failed.
#[derive(Debug, Clone, Copy, PartialEq, Eq, Structural)]
pub enum IoStep {
    /// Opening an existing file.
    Open,
    /// Reading the lines of the current file.
    Read,
    /// Appending a line to the current file.
    Append,
    /// Renaming one of the two files to the other's name.
    Rename,
    /// Creating a current file that must not exist yet.
    Create,
    /// Deleting the staging file.
    Delete,
}

/// Why an operation on the queue did not succeed.
#[derive(Debug, Clone, Copy, PartialEq, Eq, Structural)]
pub enum QueueError {
    /// Both the current and the staging file exist at startup. Which of the two
    /// is authoritative cannot be told, so nothing is repaired.
    CorruptionDetected,
    /// The backing store failed at the given step. Nothing is retried.
    Io(IoStep),
    /// `remove` found no item equal to the one asked for.
    NotFound,
    /// `pop` found the queue empty.
    EmptyQueue,
    /// The lock around the queue was left behind by a holder that failed.
    LockFailure,
    /// The item is empty or holds a line break, so it cannot be stored as one line.
    InvalidItem,
}

} // verus!
