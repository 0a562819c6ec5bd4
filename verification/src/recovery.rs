//! Startup recovery: partial snapshots found in a target are reported and
//! left in place; remediation is manual. The directory listing is I/O and
//! comes from the caller; picking the partial names out of it is
//! `BackupOrchestrator::detect_partial_backups`.
use vstd::prelude::*;

use crate::backup::{partial_suffix, spec_ends_with, BackupOrchestrator};

verus! {

/// Surveys targets for leftovers of interrupted runs.
pub struct RecoveryManager {}

impl RecoveryManager {
    pub fn new() -> (r: Self) {
        RecoveryManager {  }
    }

    /// The partial snapshots among one target's directory names, in order:
    /// what startup recovery reports for manual review.
    pub fn recover_partial_backups(&self, names: &Vec<String>) -> (r: Vec<String>)
        ensures
            r@ == names@.filter(|n: String| spec_ends_with(n@, partial_suffix())),
    {
        BackupOrchestrator::detect_partial_backups(names)
    }
}

} // verus!
