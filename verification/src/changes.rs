//! What a configuration diff reports: jobs added, removed, and modified,
//! with the kind of modification deciding whether a running job survives a
//! hot reload.
use vstd::prelude::*;

use crate::config::BackupJob;

verus! {

/// Result of diffing two job lists by id.
#[derive(Debug)]
pub struct ConfigChanges {
    pub added: Vec<BackupJob>,
    pub removed: Vec<String>,
    pub modified: Vec<ModifiedJob>,
}

/// One job whose configuration changed.
#[derive(Debug)]
pub struct ModifiedJob {
    pub job: BackupJob,
    pub change_type: ConfigChangeType,
}

/// What changed in a modified job.
#[derive(Clone, Copy, Debug, PartialEq, Eq, Structural)]
pub enum ConfigChangeType {
    /// Only the schedule changed: a running job may finish undisturbed.
    ScheduleOnly,
    /// The source or target changed: a running job must be cancelled.
    PathChanged,
    /// Both the paths and the schedule changed.
    PathAndSchedule,
}

} // verus!
