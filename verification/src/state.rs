//! The durable state document: per-job records, snapshot metadata and the
//! mutations the scheduler and executor apply to them. Every mutation
//! preserves the document invariant: job ids are unique, every complete
//! metadata record carries a completion stamp, and a running job always has
//! an in-flight metadata record.
use vstd::prelude::*;

use crate::clock::MAX_EPOCH_SECONDS;
use crate::text::str_eq;

verus! {

/// Current state schema version.
pub const STATE_SCHEMA_VERSION: u32 = 1;

/// Job execution status.
#[derive(Clone, Debug, PartialEq, Eq)]
pub enum JobStatus {
    /// Waiting for the next scheduled run.
    Idle,
    /// Currently running.
    Running { started_at: i64 },
    /// The last run failed.
    Failed { error: String, timestamp: i64 },
}

/// Metadata about one snapshot, in flight or archived.
#[derive(Clone, Debug)]
pub struct BackupMetadata {
    pub backup_name: String,
    pub backup_path: String,
    pub started_at: i64,
    pub completed_at: Option<i64>,
    pub bytes_copied: u64,
    pub files_copied: u64,
    pub files_skipped: u64,
    pub is_complete: bool,
    pub errors: Vec<String>,
}

impl BackupMetadata {
    /// A record is complete exactly when it carries a completion stamp.
    pub open spec fn wf(self) -> bool {
        self.is_complete <==> self.completed_at is Some
    }

    /// A fresh in-flight record: no completion stamp and zeroed counters.
    pub fn new(backup_name: String, backup_path: String, started_at: i64) -> (r: Self)
        ensures
            r.backup_name == backup_name,
            r.backup_path == backup_path,
            r.started_at == started_at,
            r.completed_at is None,
            r.bytes_copied == 0,
            r.files_copied == 0,
            r.files_skipped == 0,
            !r.is_complete,
            r.errors@.len() == 0,
            r.wf(),
    {
        BackupMetadata {
            backup_name,
            backup_path,
            started_at,
            completed_at: None,
            bytes_copied: 0,
            files_copied: 0,
            files_skipped: 0,
            is_complete: false,
            errors: Vec::new(),
        }
    }

    /// Stamp the record complete at `now`.
    pub fn mark_complete(&mut self, now: i64)
        ensures
            final(self).completed_at == Some(now),
            final(self).is_complete,
            final(self).wf(),
            final(self).backup_name == old(self).backup_name,
            final(self).backup_path == old(self).backup_path,
            final(self).started_at == old(self).started_at,
            final(self).bytes_copied == old(self).bytes_copied,
            final(self).files_copied == old(self).files_copied,
            final(self).files_skipped == old(self).files_skipped,
            final(self).errors == old(self).errors,
    {
        self.completed_at = Some(now);
        self.is_complete = true;
    }

    /// Whether the completeness flag and the completion stamp agree.
    pub fn check_wf(&self) -> (r: bool)
        ensures
            r == self.wf(),
    {
        self.is_complete == self.completed_at.is_some()
    }
}

/// State of one backup job.
#[derive(Clone, Debug)]
pub struct JobState {
    pub id: String,
    pub source: String,
    pub target: String,
    pub status: JobStatus,
    pub last_run: Option<i64>,
    pub next_run: Option<i64>,
    pub last_backup: Option<BackupMetadata>,
    pub active_backup: Option<BackupMetadata>,
}

impl JobState {
    /// The record invariant: the last-run stamp lies in the epoch range the
    /// scheduler accepts, metadata records are well formed, a running job
    /// has an in-flight record, and a job that has succeeded keeps its
    /// archived metadata.
    pub open spec fn wf(self) -> bool {
        &&& (self.last_run matches Some(t) ==> 0 <= t <= MAX_EPOCH_SECONDS)
        &&& (self.last_backup matches Some(m) ==> m.wf())
        &&& (self.active_backup matches Some(m) ==> m.wf())
        &&& (self.status matches JobStatus::Running { .. } ==> self.active_backup is Some)
        &&& (self.last_run is Some ==> self.last_backup is Some)
    }

    /// A fresh idle record for a newly configured job.
    pub fn new(id: String, source: String, target: String) -> (r: Self)
        ensures
            r.id == id,
            r.source == source,
            r.target == target,
            r.status == JobStatus::Idle,
            r.last_run is None,
            r.next_run is None,
            r.last_backup is None,
            r.active_backup is None,
            r.wf(),
    {
        JobState {
            id,
            source,
            target,
            status: JobStatus::Idle,
            last_run: None,
            next_run: None,
            last_backup: None,
            active_backup: None,
        }
    }

    /// Whether the record invariant holds.
    pub fn check_wf(&self) -> (r: bool)
        ensures
            r == self.wf(),
    {
        let stamps_ok: bool = match self.last_run {
            Some(t) => 0 <= t && t <= MAX_EPOCH_SECONDS,
            None => true,
        };
        let backups_ok: bool = match &self.last_backup {
            Some(m) => m.check_wf(),
            None => true,
        } && match &self.active_backup {
            Some(m) => m.check_wf(),
            None => true,
        };
        let running_ok: bool = match self.status {
            JobStatus::Running { .. } => self.active_backup.is_some(),
            _ => true,
        };
        let archived_ok: bool = !self.last_run.is_some() || self.last_backup.is_some();
        stamps_ok && backups_ok && running_ok && archived_ok
    }
}

/// No two records share an id.
pub open spec fn ids_unique(jobs: Seq<JobState>) -> bool {
    forall|i: int, j: int| 0 <= i < j < jobs.len() ==> jobs[i].id@ != jobs[j].id@
}

/// Some record carries `id`.
pub open spec fn contains_id(jobs: Seq<JobState>, id: Seq<char>) -> bool {
    exists|i: int| 0 <= i < jobs.len() && #[trigger] jobs[i].id@ == id
}

/// The index of the record carrying `id`; meaningful when `contains_id`
/// holds and ids are unique.
pub open spec fn index_of_id(jobs: Seq<JobState>, id: Seq<char>) -> int {
    choose|i: int| 0 <= i < jobs.len() && #[trigger] jobs[i].id@ == id
}

/// With unique ids, any position whose record carries `id` is the one
/// `index_of_id` names.
pub proof fn lemma_index_of_id(jobs: Seq<JobState>, id: Seq<char>, i: int)
    requires
        ids_unique(jobs),
        0 <= i < jobs.len(),
        jobs[i].id@ == id,
    ensures
        contains_id(jobs, id),
        index_of_id(jobs, id) == i,
{
    assert(contains_id(jobs, id));
    let j = index_of_id(jobs, id);
    if j < i {
        assert(jobs[j].id@ != jobs[i].id@);
    } else if i < j {
        assert(jobs[i].id@ != jobs[j].id@);
    }
}

/// `n` is `o` with its next-run stamp set.
pub open spec fn next_run_set(o: JobState, n: JobState, next_run: i64) -> bool {
    &&& n.id == o.id
    &&& n.source == o.source
    &&& n.target == o.target
    &&& n.status == o.status
    &&& n.last_run == o.last_run
    &&& n.next_run == Some(next_run)
    &&& n.last_backup == o.last_backup
    &&& n.active_backup == o.active_backup
}

/// `n` is `o` transitioned to running at `now`, with refreshed paths and the
/// in-flight metadata installed.
pub open spec fn running_applied(
    o: JobState,
    n: JobState,
    now: i64,
    source: Seq<char>,
    target: Seq<char>,
    active: BackupMetadata,
) -> bool {
    &&& n.id == o.id
    &&& n.source@ == source
    &&& n.target@ == target
    &&& n.status == (JobStatus::Running { started_at: now })
    &&& n.last_run == o.last_run
    &&& n.next_run == o.next_run
    &&& n.last_backup == o.last_backup
    &&& n.active_backup == Some(active)
}

/// `n` is `o` transitioned to idle after a run that succeeded at `now`, with
/// the returned metadata archived and the in-flight record cleared.
pub open spec fn success_applied(o: JobState, n: JobState, now: i64, metadata: BackupMetadata) -> bool {
    &&& n.id == o.id
    &&& n.source == o.source
    &&& n.target == o.target
    &&& n.status == JobStatus::Idle
    &&& n.last_run == Some(now)
    &&& n.next_run == o.next_run
    &&& n.last_backup == Some(metadata)
    &&& n.active_backup is None
}

/// `n` is `o` transitioned to failed at `now` with the given message, the
/// in-flight record cleared.
pub open spec fn failure_applied(o: JobState, n: JobState, now: i64, error: Seq<char>) -> bool {
    &&& n.id == o.id
    &&& n.source == o.source
    &&& n.target == o.target
    &&& (n.status matches JobStatus::Failed { error: e, timestamp: t } && e@ == error && t == now)
    &&& n.last_run == o.last_run
    &&& n.next_run == o.next_run
    &&& n.last_backup == o.last_backup
    &&& n.active_backup is None
}

/// `n` is `o` with its status returned to idle and everything else kept.
pub open spec fn status_reset(o: JobState, n: JobState) -> bool {
    &&& n.id == o.id
    &&& n.source == o.source
    &&& n.target == o.target
    &&& n.status == JobStatus::Idle
    &&& n.last_run == o.last_run
    &&& n.next_run == o.next_run
    &&& n.last_backup == o.last_backup
    &&& n.active_backup == o.active_backup
}

/// The root state document persisted to disk.
#[derive(Clone, Debug)]
pub struct BackupState {
    pub version: u32,
    pub jobs: Vec<JobState>,
    pub last_updated: i64,
}

impl BackupState {
    /// The document invariant: unique ids and well-formed records.
    pub open spec fn wf(self) -> bool {
        &&& ids_unique(self.jobs@)
        &&& forall|i: int| 0 <= i < self.jobs@.len() ==> (#[trigger] self.jobs@[i]).wf()
    }

    /// Some record carries `id`.
    pub open spec fn contains_job(self, id: Seq<char>) -> bool {
        contains_id(self.jobs@, id)
    }

    /// The record carrying `id`, when one exists and ids are unique.
    pub open spec fn spec_job(self, id: Seq<char>) -> JobState {
        self.jobs@[index_of_id(self.jobs@, id)]
    }

    /// A fresh empty document stamped at `now`.
    pub fn new(now: i64) -> (r: Self)
        ensures
            r.version == STATE_SCHEMA_VERSION,
            r.jobs@.len() == 0,
            r.last_updated == now,
            r.wf(),
    {
        BackupState { version: STATE_SCHEMA_VERSION, jobs: Vec::new(), last_updated: now }
    }

    /// The position of the record carrying `id`, scanning from the front.
    pub fn find_job(&self, id: &str) -> (r: Option<usize>)
        ensures
            match r {
                Some(i) => i < self.jobs@.len() && self.jobs@[i as int].id@ == id@,
                None => !self.contains_job(id@),
            },
    {
        let mut i: usize = 0;
        while i < self.jobs.len()
            invariant
                i <= self.jobs@.len(),
                forall|k: int| 0 <= k < i ==> (#[trigger] self.jobs@[k].id@) != id@,
            decreases self.jobs@.len() - i,
        {
            if str_eq(self.jobs[i].id.as_str(), id) {
                return Some(i);
            }
            i = i + 1;
        }
        None
    }

    /// The record carrying `id`, if any.
    pub fn get_job(&self, id: &str) -> (r: Option<&JobState>)
        ensures
            match r {
                Some(j) => self.contains_job(id@) && j.id@ == id@ && (exists|i: int|
                    0 <= i < self.jobs@.len() && self.jobs@[i] == *j),
                None => !self.contains_job(id@),
            },
    {
        match self.find_job(id) {
            Some(i) => {
                let j = &self.jobs[i];
                proof {
                    assert(self.contains_job(id@));
                    assert(self.jobs@[i as int] == *j);
                }
                Some(j)
            },
            None => None,
        }
    }

    /// Replace the record that shares `job`'s id, or append `job` if none
    /// does, and stamp the update time.
    pub fn upsert_job(&mut self, job: JobState, now: i64)
        requires
            old(self).wf(),
            job.wf(),
        ensures
            final(self).wf(),
            final(self).version == old(self).version,
            final(self).last_updated == now,
            old(self).contains_job(job.id@) ==> final(self).jobs@ =~= old(self).jobs@.update(
                index_of_id(old(self).jobs@, job.id@),
                job,
            ),
            !old(self).contains_job(job.id@) ==> final(self).jobs@ =~= old(self).jobs@.push(job),
            final(self).contains_job(job.id@),
    {
        let found = self.find_job(job.id.as_str());
        match found {
            Some(i) => {
                proof {
                    lemma_index_of_id(self.jobs@, job.id@, i as int);
                }
                self.jobs[i] = job;
                proof {
                    assert forall|p: int, q: int|
                        0 <= p < q < self.jobs@.len() implies self.jobs@[p].id@
                        != self.jobs@[q].id@ by {
                        assert(old(self).jobs@[p].id@ != old(self).jobs@[q].id@);
                    }
                    assert(self.jobs@[i as int].id@ == job.id@);
                }
            },
            None => {
                self.jobs.push(job);
                proof {
                    let n = old(self).jobs@.len() as int;
                    assert forall|p: int, q: int|
                        0 <= p < q < self.jobs@.len() implies self.jobs@[p].id@
                        != self.jobs@[q].id@ by {
                        if q < n {
                            assert(old(self).jobs@[p].id@ != old(self).jobs@[q].id@);
                        } else {
                            assert(old(self).jobs@[p].id@ != job.id@);
                        }
                    }
                    assert(self.jobs@[n].id@ == job.id@);
                }
            },
        }
        self.last_updated = now;
    }

    /// Stamp when the scheduler wants the job to fire next; `false` when no
    /// record carries `id`, leaving the document untouched.
    pub fn set_job_next_run(&mut self, id: &str, next_run: i64, now: i64) -> (r: bool)
        requires
            old(self).wf(),
        ensures
            final(self).wf(),
            r == old(self).contains_job(id@),
            final(self).version == old(self).version,
            final(self).jobs@.len() == old(self).jobs@.len(),
            !r ==> *final(self) == *old(self),
            r ==> final(self).last_updated == now,
            forall|i: int|
                0 <= i < old(self).jobs@.len() && (#[trigger] old(self).jobs@[i]).id@ != id@
                    ==> final(self).jobs@[i] == old(self).jobs@[i],
            forall|i: int|
                0 <= i < old(self).jobs@.len() && (#[trigger] old(self).jobs@[i]).id@ == id@
                    ==> next_run_set(old(self).jobs@[i], final(self).jobs@[i], next_run),
    {
        let found = self.find_job(id);
        match found {
            None => false,
            Some(i) => {
                self.jobs[i].next_run = Some(next_run);
                self.last_updated = now;
                proof {
                    self.lemma_only_index_matches(*old(self), id@, i as int);
                }
                true
            },
        }
    }

    /// Record that the job is running: stamp the start, refresh the paths it
    /// runs with and install the in-flight metadata. `false` when no record
    /// carries `id`, leaving the document untouched.
    pub fn apply_job_running(
        &mut self,
        id: &str,
        now: i64,
        source: &str,
        target: &str,
        active: BackupMetadata,
    ) -> (r: bool)
        requires
            old(self).wf(),
            active.wf(),
        ensures
            final(self).wf(),
            r == old(self).contains_job(id@),
            final(self).version == old(self).version,
            final(self).jobs@.len() == old(self).jobs@.len(),
            !r ==> *final(self) == *old(self),
            r ==> final(self).last_updated == now,
            forall|i: int|
                0 <= i < old(self).jobs@.len() && (#[trigger] old(self).jobs@[i]).id@ != id@
                    ==> final(self).jobs@[i] == old(self).jobs@[i],
            forall|i: int|
                0 <= i < old(self).jobs@.len() && (#[trigger] old(self).jobs@[i]).id@ == id@
                    ==> running_applied(
                    old(self).jobs@[i],
                    final(self).jobs@[i],
                    now,
                    source@,
                    target@,
                    active,
                ),
    {
        let found = self.find_job(id);
        match found {
            None => false,
            Some(i) => {
                self.jobs[i].status = JobStatus::Running { started_at: now };
                self.jobs[i].source = source.to_owned();
                self.jobs[i].target = target.to_owned();
                self.jobs[i].active_backup = Some(active);
                self.last_updated = now;
                proof {
                    self.lemma_only_index_matches(*old(self), id@, i as int);
                }
                true
            },
        }
    }

    /// Record a successful run: back to idle, stamp the run, archive the
    /// returned metadata and clear the in-flight record. `false` when no
    /// record carries `id`, leaving the document untouched.
    pub fn apply_job_success(&mut self, id: &str, now: i64, metadata: BackupMetadata) -> (r: bool)
        requires
            old(self).wf(),
            metadata.wf(),
            0 <= now <= MAX_EPOCH_SECONDS,
        ensures
            final(self).wf(),
            r == old(self).contains_job(id@),
            final(self).version == old(self).version,
            final(self).jobs@.len() == old(self).jobs@.len(),
            !r ==> *final(self) == *old(self),
            r ==> final(self).last_updated == now,
            forall|i: int|
                0 <= i < old(self).jobs@.len() && (#[trigger] old(self).jobs@[i]).id@ != id@
                    ==> final(self).jobs@[i] == old(self).jobs@[i],
            forall|i: int|
                0 <= i < old(self).jobs@.len() && (#[trigger] old(self).jobs@[i]).id@ == id@
                    ==> success_applied(old(self).jobs@[i], final(self).jobs@[i], now, metadata),
    {
        let found = self.find_job(id);
        match found {
            None => false,
            Some(i) => {
                self.jobs[i].status = JobStatus::Idle;
                self.jobs[i].last_run = Some(now);
                self.jobs[i].last_backup = Some(metadata);
                self.jobs[i].active_backup = None;
                self.last_updated = now;
                proof {
                    self.lemma_only_index_matches(*old(self), id@, i as int);
                }
                true
            },
        }
    }

    /// Record a failed or cancelled run: stamp the failure with its message
    /// and clear the in-flight record. `false` when no record carries `id`,
    /// leaving the document untouched.
    pub fn apply_job_failure(&mut self, id: &str, now: i64, error: String) -> (r: bool)
        requires
            old(self).wf(),
        ensures
            final(self).wf(),
            r == old(self).contains_job(id@),
            final(self).version == old(self).version,
            final(self).jobs@.len() == old(self).jobs@.len(),
            !r ==> *final(self) == *old(self),
            r ==> final(self).last_updated == now,
            forall|i: int|
                0 <= i < old(self).jobs@.len() && (#[trigger] old(self).jobs@[i]).id@ != id@
                    ==> final(self).jobs@[i] == old(self).jobs@[i],
            forall|i: int|
                0 <= i < old(self).jobs@.len() && (#[trigger] old(self).jobs@[i]).id@ == id@
                    ==> failure_applied(old(self).jobs@[i], final(self).jobs@[i], now, error@),
    {
        let found = self.find_job(id);
        match found {
            None => false,
            Some(i) => {
                self.jobs[i].status = JobStatus::Failed { error, timestamp: now };
                self.jobs[i].active_backup = None;
                self.last_updated = now;
                proof {
                    self.lemma_only_index_matches(*old(self), id@, i as int);
                }
                true
            },
        }
    }

    /// Return every failed job to idle, as startup recovery does; running
    /// and idle records are untouched. `true` when anything changed, and the
    /// update stamp moves only then.
    pub fn reset_failed_jobs(&mut self, now: i64) -> (changed: bool)
        requires
            old(self).wf(),
        ensures
            final(self).wf(),
            final(self).version == old(self).version,
            final(self).jobs@.len() == old(self).jobs@.len(),
            changed == exists|i: int|
                0 <= i < old(self).jobs@.len() && (#[trigger] old(self).jobs@[i]).status matches JobStatus::Failed { .. },
            changed ==> final(self).last_updated == now,
            !changed ==> final(self).jobs@ == old(self).jobs@ && final(self).last_updated == old(
                self,
            ).last_updated,
            forall|i: int|
                0 <= i < old(self).jobs@.len() && !((#[trigger] old(self).jobs@[i]).status matches JobStatus::Failed { .. })
                    ==> final(self).jobs@[i] == old(self).jobs@[i],
            forall|i: int|
                (0 <= i < old(self).jobs@.len() && (#[trigger] old(self).jobs@[i]).status matches JobStatus::Failed { .. })
                    ==> status_reset(old(self).jobs@[i], final(self).jobs@[i]),
    {
        let mut changed: bool = false;
        let mut i: usize = 0;
        while i < self.jobs.len()
            invariant
                old(self).wf(),
                i <= self.jobs@.len(),
                self.jobs@.len() == old(self).jobs@.len(),
                self.version == old(self).version,
                self.last_updated == old(self).last_updated,
                changed == exists|k: int|
                    0 <= k < i && (#[trigger] old(self).jobs@[k]).status matches JobStatus::Failed { .. },
                forall|k: int| i <= k < old(self).jobs@.len() ==> self.jobs@[k] == old(self).jobs@[k],
                forall|k: int|
                    0 <= k < i && !((#[trigger] old(self).jobs@[k]).status matches JobStatus::Failed { .. })
                        ==> self.jobs@[k] == old(self).jobs@[k],
                forall|k: int|
                    (0 <= k < i && (#[trigger] old(self).jobs@[k]).status matches JobStatus::Failed { .. })
                        ==> status_reset(old(self).jobs@[k], self.jobs@[k]),
            decreases self.jobs@.len() - i,
        {
            let is_failed: bool = matches!(self.jobs[i].status, JobStatus::Failed { .. });
            if is_failed {
                self.jobs[i].status = JobStatus::Idle;
                changed = true;
            }
            i = i + 1;
        }
        if changed {
            self.last_updated = now;
        }
        proof {
            assert forall|p: int, q: int|
                0 <= p < q < self.jobs@.len() implies self.jobs@[p].id@ != self.jobs@[q].id@ by {
                assert(self.jobs@[p].id@ == old(self).jobs@[p].id@);
                assert(self.jobs@[q].id@ == old(self).jobs@[q].id@);
                assert(old(self).jobs@[p].id@ != old(self).jobs@[q].id@);
            }
            assert forall|k: int| 0 <= k < self.jobs@.len() implies (#[trigger] self.jobs@[k]).wf() by {
                assert(old(self).jobs@[k].wf());
            }
            if !changed {
                assert(self.jobs@ =~= old(self).jobs@);
            }
        }
        changed
    }

    /// With unique ids, the record `find_job` located is the only one that
    /// matches, so every other index keeps its id distinct.
    proof fn lemma_only_index_matches(self, older: BackupState, id: Seq<char>, i: int)
        requires
            ids_unique(older.jobs@),
            0 <= i < older.jobs@.len(),
            older.jobs@[i].id@ == id,
            self.jobs@.len() == older.jobs@.len(),
            forall|k: int| 0 <= k < older.jobs@.len() && k != i ==> self.jobs@[k] == older.jobs@[k],
            self.jobs@[i].id@ == id,
        ensures
            ids_unique(self.jobs@),
            forall|k: int|
                0 <= k < older.jobs@.len() && (#[trigger] older.jobs@[k]).id@ == id ==> k == i,
    {
        assert forall|p: int, q: int|
            0 <= p < q < self.jobs@.len() implies self.jobs@[p].id@ != self.jobs@[q].id@ by {
            assert(older.jobs@[p].id@ != older.jobs@[q].id@);
            assert(self.jobs@[p].id@ == older.jobs@[p].id@);
            assert(self.jobs@[q].id@ == older.jobs@[q].id@);
        }
        assert forall|k: int|
            0 <= k < older.jobs@.len() && (#[trigger] older.jobs@[k]).id@ == id implies k == i by {
            if k < i {
                assert(older.jobs@[k].id@ != older.jobs@[i].id@);
            } else if i < k {
                assert(older.jobs@[i].id@ != older.jobs@[k].id@);
            }
        }
    }

    /// Whether the document invariant holds: the runtime counterpart of
    /// `wf`, for validating a document read back from disk.
    pub fn check_wf(&self) -> (r: bool)
        ensures
            r == self.wf(),
    {
        let mut i: usize = 0;
        while i < self.jobs.len()
            invariant
                i <= self.jobs@.len(),
                forall|k: int| 0 <= k < i ==> (#[trigger] self.jobs@[k]).wf(),
                forall|p: int, q: int| 0 <= p < q < i ==> self.jobs@[p].id@ != self.jobs@[q].id@,
            decreases self.jobs@.len() - i,
        {
            if !self.jobs[i].check_wf() {
                return false;
            }
            let mut k: usize = 0;
            while k < i
                invariant
                    k <= i,
                    i < self.jobs@.len(),
                    forall|p: int| 0 <= p < k ==> self.jobs@[p].id@ != self.jobs@[i as int].id@,
                decreases i - k,
            {
                if str_eq(self.jobs[k].id.as_str(), self.jobs[i].id.as_str()) {
                    return false;
                }
                k = k + 1;
            }
            i = i + 1;
        }
        true
    }
}

} // verus!
