//! The copy engine: bookkeeping: progress counters streamed into the
//! in-flight metadata while a tree is copied. The byte-level copy itself is
//! a platform collaborator outside this library.
use vstd::prelude::*;

verus! {

/// Running totals of one tree copy.
#[derive(Clone, Debug)]
pub struct CopyProgress {
    pub bytes_copied: u64,
    pub files_copied: u64,
    pub files_skipped: u64,
    pub current_file: Option<String>,
}

impl CopyProgress {
    /// Fresh counters before any file is visited.
    pub fn new() -> (r: Self)
        ensures
            r.bytes_copied == 0,
            r.files_copied == 0,
            r.files_skipped == 0,
            r.current_file is None,
    {
        CopyProgress { bytes_copied: 0, files_copied: 0, files_skipped: 0, current_file: None }
    }

    /// Account one copied file of `bytes` bytes; counters saturate rather
    /// than wrap.
    pub fn record_copied(&mut self, bytes: u64)
        ensures
            final(self).bytes_copied == if old(self).bytes_copied + bytes <= u64::MAX {
                old(self).bytes_copied + bytes
            } else {
                u64::MAX as int
            },
            final(self).files_copied == if old(self).files_copied + 1 <= u64::MAX {
                old(self).files_copied + 1
            } else {
                u64::MAX as int
            },
            final(self).files_skipped == old(self).files_skipped,
            final(self).current_file == old(self).current_file,
    {
        self.bytes_copied = if self.bytes_copied <= u64::MAX - bytes {
            self.bytes_copied + bytes
        } else {
            u64::MAX
        };
        self.files_copied = if self.files_copied < u64::MAX {
            self.files_copied + 1
        } else {
            u64::MAX
        };
    }

    /// Account one file that could not be copied; the counter saturates
    /// rather than wraps.
    pub fn record_skipped(&mut self)
        ensures
            final(self).files_skipped == if old(self).files_skipped + 1 <= u64::MAX {
                old(self).files_skipped + 1
            } else {
                u64::MAX as int
            },
            final(self).bytes_copied == old(self).bytes_copied,
            final(self).files_copied == old(self).files_copied,
            final(self).current_file == old(self).current_file,
    {
        self.files_skipped = if self.files_skipped < u64::MAX {
            self.files_skipped + 1
        } else {
            u64::MAX
        };
    }
}

/// The copy engine. Its recursive tree walk is I/O and lives with the
/// caller; the engine itself only carries the bookkeeping above.
pub struct CopyEngine {}

impl CopyEngine {
    pub fn new() -> (r: Self) {
        CopyEngine {  }
    }
}

} // verus!
