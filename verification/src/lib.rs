//! A durable first-in, first-out queue of text items, without the I/O.
//!
//! The queue keeps its items in memory and mirrors them in a backing store of two
//! files: the current file, one item per line, and a staging file that exists only
//! while the current file is being replaced. This crate holds every decision of that
//! design and proves it: the line format, the operations on the sequence in memory,
//! the ordered steps that replace the file, and what a restart finds after a crash
//! at any point of them. The caller owns the lock and the file handle, performs the
//! actions it is handed, and reports how each of them went.

pub mod action;
pub mod config;
pub mod disk;
pub mod error;
pub mod format;
pub mod history;
pub mod queue;
pub mod recovery;
pub mod rewrite;
pub mod store;

pub use crate::action::{Action, Outcome};
pub use crate::config::QueueConfig;
pub use crate::error::{IoStep, QueueError};
pub use crate::queue::Queue;
pub use crate::recovery::plan_recovery;
pub use crate::rewrite::Rewrite;
pub use crate::store::Store;
