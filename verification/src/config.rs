//! Where the backing store lies.

use vstd::prelude::*;
use vstd::string::StringExecFns;

verus! {

/// The paths of the two files of the backing store.
#[derive(Debug, PartialEq, Eq)]
pub struct QueueConfig {
    /// The path of the current file.
    pub current_path: String,
    /// The path of the staging file.
    pub staging_path: String,
}

impl QueueConfig {
    /// The configuration for a current file at `current_path`, with the staging file
    /// beside it: its path is that of the current file followed by `.old`. The two
    /// paths differ.
    pub fn new(current_path: &str) -> (config: QueueConfig)
        ensures
            config.current_path@ == current_path@,
            config.staging_path@ == current_path@ + ".old"@,
            config.current_path@ != config.staging_path@,
    {
        proof {
            reveal_strlit(".old");
        }
        QueueConfig {
            current_path: current_path.to_owned(),
            staging_path: current_path.to_owned().concat(".old"),
        }
    }
}

} // verus!
