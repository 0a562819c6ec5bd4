//! The job executor's configuration: how many completed snapshots retention
//! keeps. The state transitions one run applies live on the state document;
//! the asynchronous drive around the copy belongs to the caller.
use vstd::prelude::*;

verus! {

/// Default retention when none is configured yet; normally replaced by the
/// configured value right away.
pub const EXECUTOR_DEFAULT_RETENTION: usize = 10;

/// Drives one backup run against the state document; owns the retention
/// bound applied after a successful run.
pub struct JobExecutor {
    pub retention_count: usize,
}

impl JobExecutor {
    pub fn new() -> (r: Self)
        ensures
            r.retention_count == EXECUTOR_DEFAULT_RETENTION,
    {
        JobExecutor { retention_count: EXECUTOR_DEFAULT_RETENTION }
    }

    /// An executor with the configured retention bound.
    pub fn with_retention_count(retention_count: usize) -> (r: Self)
        ensures
            r.retention_count == retention_count,
    {
        JobExecutor { retention_count }
    }

    /// Replace the retention bound, as a configuration reload does.
    pub fn set_retention_count(&mut self, retention_count: usize)
        ensures
            final(self).retention_count == retention_count,
    {
        self.retention_count = retention_count;
    }
}

} // verus!
