//! The scheduler: validating job ids, creating state records for new jobs,
//! recomputing next-run stamps, selecting the jobs ready to fire, and
//! diffing an old configuration against a new one.
use vstd::prelude::*;

use crate::changes::{ConfigChangeType, ConfigChanges, ModifiedJob};
use crate::clock::LocalDateTime;
use crate::config::BackupJob;
use crate::state::{next_run_set, BackupState, JobState, JobStatus};
use crate::text::{push_dec, spec_dec, str_eq};

verus! {

/// No two configured jobs share an id.
pub open spec fn config_ids_unique(jobs: Seq<BackupJob>) -> bool {
    forall|i: int, j: int| 0 <= i < j < jobs.len() ==> jobs[i].id@ != jobs[j].id@
}

/// Some configured job carries `id`.
pub open spec fn config_contains_id(jobs: Seq<BackupJob>, id: Seq<char>) -> bool {
    exists|i: int| 0 <= i < jobs.len() && #[trigger] jobs[i].id@ == id
}

/// The first index at or past `j` whose job carries `id`; the length when
/// none does.
pub open spec fn spec_first_with_id(jobs: Seq<BackupJob>, id: Seq<char>, j: int) -> int
    decreases jobs.len() - j,
{
    if j < 0 || j >= jobs.len() {
        jobs.len() as int
    } else if jobs[j].id@ == id {
        j
    } else {
        spec_first_with_id(jobs, id, j + 1)
    }
}

/// Scanning forward finds exactly the first occurrence.
proof fn lemma_first_with_id(jobs: Seq<BackupJob>, id: Seq<char>, m: int, j0: int)
    requires
        0 <= m <= j0 < jobs.len(),
        jobs[j0].id@ == id,
        forall|k: int| m <= k < j0 ==> jobs[k].id@ != id,
    ensures
        spec_first_with_id(jobs, id, m) == j0,
    decreases j0 - m,
{
    if m < j0 {
        lemma_first_with_id(jobs, id, m + 1, j0);
    }
}

/// An earlier job carries the same id as the job at `i`.
pub open spec fn spec_has_earlier(jobs: Seq<BackupJob>, i: int) -> bool {
    exists|j: int| 0 <= j < i && (#[trigger] jobs[j].id@) == jobs[i].id@
}

/// The duplicate reports for the first `k` jobs: one per repeated
/// occurrence, carrying the id, its first position and the repeated one.
pub open spec fn spec_dup_list(jobs: Seq<BackupJob>, k: int) -> Seq<(Seq<char>, int, int)>
    decreases k,
{
    if k <= 0 {
        Seq::empty()
    } else {
        spec_dup_list(jobs, k - 1) + if spec_has_earlier(jobs, k - 1) {
            seq![(jobs[k - 1].id@, spec_first_with_id(jobs, jobs[k - 1].id@, 0), k - 1)]
        } else {
            Seq::empty()
        }
    }
}

/// One duplicate-id report: the id, the position where it first appeared
/// and the position where it appeared again.
#[derive(Clone, Debug)]
pub struct DuplicateEntry {
    pub id: String,
    pub first: usize,
    pub second: usize,
}

/// The error a configuration with repeated job ids produces.
#[derive(Debug)]
pub struct DuplicateIdError {
    pub duplicates: Vec<DuplicateEntry>,
}

/// The message text for one duplicate report.
pub open spec fn spec_dup_line(id: Seq<char>, first: int, second: int) -> Seq<char> {
    "  - Job ID '"@ + id + "' appears at positions "@ + spec_dec(first as nat) + " and "@
        + spec_dec(second as nat) + "\n"@
}

/// The message text for a list of duplicate reports.
pub open spec fn spec_dup_lines(dups: Seq<DuplicateEntry>, k: int) -> Seq<char>
    decreases k,
{
    if k <= 0 {
        Seq::empty()
    } else {
        spec_dup_lines(dups, k - 1) + spec_dup_line(
            dups[k - 1].id@,
            dups[k - 1].first as int,
            dups[k - 1].second as int,
        )
    }
}

/// The full message of a duplicate-id error.
pub open spec fn spec_dup_message(dups: Seq<DuplicateEntry>) -> Seq<char> {
    "Duplicate job IDs detected in configuration:\n"@ + spec_dup_lines(dups, dups.len() as int)
        + "\nEach job must have a unique ID. Please fix the configuration."@
}

impl DuplicateIdError {
    /// The human-readable report: every duplicate id with the pair of
    /// positions at which it first appeared and repeated.
    pub fn message(&self) -> (r: String)
        ensures
            r@ == spec_dup_message(self.duplicates@),
    {
        let mut s = String::new();
        s.append("Duplicate job IDs detected in configuration:\n");
        let mut i: usize = 0;
        while i < self.duplicates.len()
            invariant
                i <= self.duplicates@.len(),
                s@ == "Duplicate job IDs detected in configuration:\n"@ + spec_dup_lines(
                    self.duplicates@,
                    i as int,
                ),
            decreases self.duplicates@.len() - i,
        {
            s.append("  - Job ID '");
            s.append(self.duplicates[i].id.as_str());
            s.append("' appears at positions ");
            push_dec(&mut s, self.duplicates[i].first as u64);
            s.append(" and ");
            push_dec(&mut s, self.duplicates[i].second as u64);
            s.append("\n");
            proof {
                assert(s@ =~= "Duplicate job IDs detected in configuration:\n"@ + spec_dup_lines(
                    self.duplicates@,
                    i + 1 as int,
                ));
            }
            i = i + 1;
        }
        s.append("\nEach job must have a unique ID. Please fix the configuration.");
        s
    }
}

/// A fresh idle record created from the configured job.
pub open spec fn spec_initialized_from(record: JobState, job: BackupJob) -> bool {
    &&& record.id@ == job.id@
    &&& record.source@ == job.source@
    &&& record.target@ == job.target@
    &&& record.status == JobStatus::Idle
    &&& record.last_run is None
    &&& record.next_run is None
    &&& record.last_backup is None
    &&& record.active_backup is None
}

/// `record` is a fresh idle record for one of the configured jobs.
pub open spec fn spec_newly_initialized(jobs: Seq<BackupJob>, record: JobState) -> bool {
    exists|j: int| 0 <= j < jobs.len() && spec_initialized_from(record, #[trigger] jobs[j])
}

/// A configured job is ready to fire: it has no state record yet, or its
/// record is idle with no next-run stamp or one that has passed.
pub open spec fn spec_ready(state: BackupState, job: BackupJob, now_epoch: i64) -> bool {
    if !state.contains_job(job.id@) {
        true
    } else {
        let rec = state.spec_job(job.id@);
        &&& rec.status == JobStatus::Idle
        &&& match rec.next_run {
            Some(t) => t <= now_epoch,
            None => true,
        }
    }
}

/// The scheduler's pure operations over the state document.
pub struct Scheduler {}

impl Scheduler {
    pub fn new() -> (r: Self) {
        Scheduler {  }
    }

    /// Report every repeated job id, or nothing when all are unique.
    pub fn validate_no_duplicate_job_ids(jobs: &Vec<BackupJob>) -> (r: Result<
        (),
        DuplicateIdError,
    >)
        ensures
            r is Ok <==> config_ids_unique(jobs@),
            r matches Err(e) ==> e.duplicates@.map_values(
                |d: DuplicateEntry| (d.id@, d.first as int, d.second as int),
            ) == spec_dup_list(jobs@, jobs@.len() as int),
    {
        let n = jobs.len();
        let mut dups: Vec<DuplicateEntry> = Vec::new();
        let mut i: usize = 0;
        while i < n
            invariant
                i <= n,
                n == jobs@.len(),
                dups@.map_values(|d: DuplicateEntry| (d.id@, d.first as int, d.second as int))
                    =~= spec_dup_list(jobs@, i as int),
                dups@.len() == 0 <==> (forall|p: int, q: int|
                    0 <= p < q < i ==> jobs@[p].id@ != jobs@[q].id@),
            decreases n - i,
        {
            // find the first earlier job with the same id, if any
            let mut j: usize = 0;
            while j < i && !str_eq(jobs[j].id.as_str(), jobs[i].id.as_str())
                invariant
                    j <= i,
                    i < n,
                    n == jobs@.len(),
                    forall|k: int| 0 <= k < j ==> jobs@[k].id@ != jobs@[i as int].id@,
                decreases i - j,
            {
                j = j + 1;
            }
            let found: Option<usize> = if j < i {
                Some(j)
            } else {
                None
            };
            match found {
                Some(f) => {
                    proof {
                        lemma_first_with_id(jobs@, jobs@[i as int].id@, 0, f as int);
                        assert(spec_has_earlier(jobs@, i as int));
                    }
                    dups.push(
                        DuplicateEntry { id: jobs[i].id.clone(), first: f, second: i },
                    );
                    proof {
                        assert(dups@.map_values(
                            |d: DuplicateEntry| (d.id@, d.first as int, d.second as int),
                        ) =~= spec_dup_list(jobs@, i + 1 as int));
                    }
                },
                None => {
                    proof {
                        assert(!spec_has_earlier(jobs@, i as int));
                        assert(spec_dup_list(jobs@, i + 1 as int) =~= spec_dup_list(
                            jobs@,
                            i as int,
                        ));
                        assert forall|p: int, q: int|
                            0 <= p < q < i + 1 && dups@.len() == 0 implies jobs@[p].id@
                            != jobs@[q].id@ by {
                            if q < i {
                            } else {
                                assert(jobs@[p].id@ != jobs@[i as int].id@);
                            }
                        }
                    }
                },
            }
            i = i + 1;
        }
        if dups.len() == 0 {
            proof {
                assert(config_ids_unique(jobs@));
            }
            Ok(())
        } else {
            proof {
                let m = dups@.map_values(
                    |d: DuplicateEntry| (d.id@, d.first as int, d.second as int),
                );
                assert(m.len() == dups@.len());
                let w = m[0];
                assert(spec_dup_list(jobs@, n as int)[0] == w);
                assert(!config_ids_unique(jobs@)) by {
                    lemma_dup_list_sound(jobs@, n as int);
                }
            }
            Err(DuplicateIdError { duplicates: dups })
        }
    }

    /// Insert a fresh idle record for every configured job not yet in the
    /// state; reject the whole list, leaving the state untouched, when any
    /// id repeats.
    pub fn initialize_jobs(state: &mut BackupState, jobs: &Vec<BackupJob>, now: i64) -> (r: Result<
        (),
        DuplicateIdError,
    >)
        requires
            old(state).wf(),
        ensures
            final(state).wf(),
            r is Ok <==> config_ids_unique(jobs@),
            r is Err ==> final(state).jobs@ == old(state).jobs@ && final(state).last_updated == old(
                state,
            ).last_updated && final(state).version == old(state).version,
            final(state).version == old(state).version,
            final(state).jobs@.len() >= old(state).jobs@.len(),
            final(state).jobs@.subrange(0, old(state).jobs@.len() as int) == old(state).jobs@,
            r is Ok ==> forall|j: int|
                0 <= j < jobs@.len() ==> final(state).contains_job(#[trigger] jobs@[j].id@),
            r is Ok ==> forall|k: int|
                old(state).jobs@.len() <= k < final(state).jobs@.len()
                    ==> spec_newly_initialized(jobs@, #[trigger] final(state).jobs@[k]),
            final(state).jobs@.len() > old(state).jobs@.len() ==> final(state).last_updated == now,
            final(state).jobs@.len() == old(state).jobs@.len() ==> final(state).last_updated == old(
                state,
            ).last_updated,
    {
        let valid = Self::validate_no_duplicate_job_ids(jobs);
        match valid {
            Err(e) => {
                proof {
                    assert(state.jobs@ == old(state).jobs@);
                    assert(state.jobs@.subrange(0, old(state).jobs@.len() as int) =~= old(
                        state,
                    ).jobs@);
                    assert(state.jobs@.len() == old(state).jobs@.len());
                }
                Err(e)
            },
            Ok(()) => {
                let ghost old_len = state.jobs@.len() as int;
                let n = jobs.len();
                let mut i: usize = 0;
                while i < n
                    invariant
                        i <= n,
                        n == jobs@.len(),
                        state.wf(),
                        state.version == old(state).version,
                        state.jobs@.len() >= old_len,
                        old_len == old(state).jobs@.len(),
                        state.jobs@.subrange(0, old_len) == old(state).jobs@,
                        forall|m: int|
                            0 <= m < i ==> state.contains_job(#[trigger] jobs@[m].id@),
                        forall|k: int|
                            old_len <= k < state.jobs@.len() ==> spec_newly_initialized(
                                jobs@,
                                #[trigger] state.jobs@[k],
                            ),
                        state.jobs@.len() > old_len ==> state.last_updated == now,
                        state.jobs@.len() == old_len ==> state.last_updated == old(
                            state,
                        ).last_updated,
                    decreases n - i,
                {
                    let ghost pre = *state;
                    let existing = state.find_job(jobs[i].id.as_str());
                    if existing.is_none() {
                        let record = JobState::new(
                            jobs[i].id.clone(),
                            jobs[i].source.clone(),
                            jobs[i].target.clone(),
                        );
                        proof {
                            assert(spec_initialized_from(record, jobs@[i as int]));
                        }
                        state.upsert_job(record, now);
                        proof {
                            assert(state.jobs@ =~= pre.jobs@.push(record));
                            assert(state.jobs@.subrange(0, old_len) =~= pre.jobs@.subrange(
                                0,
                                old_len,
                            ));
                            assert forall|k: int|
                                old_len <= k < state.jobs@.len() implies spec_newly_initialized(
                                    jobs@,
                                    #[trigger] state.jobs@[k],
                                ) by {
                                if k < pre.jobs@.len() {
                                    assert(state.jobs@[k] == pre.jobs@[k]);
                                } else {
                                    assert(state.jobs@[k] == record);
                                    assert(spec_initialized_from(record, jobs@[i as int]));
                                }
                            }
                            assert forall|m: int| 0 <= m < i + 1 implies state.contains_job(
                                #[trigger] jobs@[m].id@,
                            ) by {
                                if m < i {
                                    assert(pre.contains_job(jobs@[m].id@));
                                    let w = choose|w: int|
                                        0 <= w < pre.jobs@.len() && (#[trigger] pre.jobs@[w].id@)
                                            == jobs@[m].id@;
                                    assert(state.jobs@[w].id@ == jobs@[m].id@);
                                } else {
                                    assert(state.jobs@[pre.jobs@.len() as int].id@
                                        == jobs@[m].id@);
                                }
                            }
                        }
                    } else {
                        proof {
                            assert forall|m: int| 0 <= m < i + 1 implies state.contains_job(
                                #[trigger] jobs@[m].id@,
                            ) by {}
                        }
                    }
                    i = i + 1;
                }
                Ok(())
            },
        }
    }

    /// The configured jobs ready to fire at `now_epoch`, in configuration
    /// order: new jobs run on first tick, idle jobs once their next-run
    /// stamp is absent or reached; running and failed jobs wait.
    pub fn get_ready_jobs(state: &BackupState, jobs: &Vec<BackupJob>, now_epoch: i64) -> (r: Vec<
        BackupJob,
    >)
        requires
            state.wf(),
        ensures
            r@ == jobs@.filter(|job: BackupJob| spec_ready(*state, job, now_epoch)),
    {
        let mut r: Vec<BackupJob> = Vec::new();
        proof {
            reveal(Seq::filter);
        }
        let mut i: usize = 0;
        while i < jobs.len()
            invariant
                i <= jobs@.len(),
                state.wf(),
                r@ == jobs@.subrange(0, i as int).filter(
                    |job: BackupJob| spec_ready(*state, job, now_epoch),
                ),
            decreases jobs@.len() - i,
        {
            let ready: bool = match state.find_job(jobs[i].id.as_str()) {
                None => true,
                Some(k) => {
                    proof {
                        crate::state::lemma_index_of_id(
                            state.jobs@,
                            jobs@[i as int].id@,
                            k as int,
                        );
                    }
                    let rec = &state.jobs[k];
                    let idle: bool = matches!(rec.status, JobStatus::Idle);
                    idle && match rec.next_run {
                        Some(t) => t <= now_epoch,
                        None => true,
                    }
                },
            };
            proof {
                assert(ready == spec_ready(*state, jobs@[i as int], now_epoch));
            }
            if ready {
                r.push(jobs[i].clone());
            }
            proof {
                reveal(Seq::filter);
                let sub1 = jobs@.subrange(0, i + 1 as int);
                assert(sub1.drop_last() =~= jobs@.subrange(0, i as int));
                assert(sub1.last() == jobs@[i as int]);
                assert(r@ =~= sub1.filter(|job: BackupJob| spec_ready(*state, job, now_epoch)));
            }
            i = i + 1;
        }
        proof {
            assert(jobs@.subrange(0, jobs@.len() as int) =~= jobs@);
        }
        r
    }

    /// Recompute the next-run stamp of every configured job whose record is
    /// not running: `now` plus the schedule's duration, measured from the
    /// record's last successful run. Running jobs and jobs without a record
    /// are left alone.
    pub fn calculate_next_runs(state: &mut BackupState, jobs: &Vec<BackupJob>, now: &LocalDateTime)
        requires
            old(state).wf(),
            now.wf(),
            config_ids_unique(jobs@),
            forall|j: int| 0 <= j < jobs@.len() ==> (#[trigger] jobs@[j]).schedule.wf(),
        ensures
            final(state).wf(),
            final(state).version == old(state).version,
            final(state).jobs@.len() == old(state).jobs@.len(),
            forall|k: int|
                0 <= k < old(state).jobs@.len() && !(exists|j: int|
                    0 <= j < jobs@.len() && (#[trigger] jobs@[j].id@) == old(state).jobs@[k].id@)
                    ==> final(state).jobs@[k] == old(state).jobs@[k],
            forall|k: int|
                (0 <= k < old(state).jobs@.len() && (#[trigger] old(state).jobs@[k]).status matches
                    JobStatus::Running { .. }) ==> final(state).jobs@[k] == old(state).jobs@[k],
            forall|k: int, j: int|
                (0 <= k < old(state).jobs@.len() && 0 <= j < jobs@.len() && (
                #[trigger] jobs@[j].id@) == (#[trigger] old(state).jobs@[k]).id@ && !(old(
                    state,
                ).jobs@[k].status matches JobStatus::Running { .. })) ==> next_run_set(
                    old(state).jobs@[k],
                    final(state).jobs@[k],
                    (now.epoch_seconds + jobs@[j].schedule.next_run_duration_spec(
                        *now,
                        old(state).jobs@[k].last_run,
                    )) as i64,
                ),
    {
        let n = jobs.len();
        let mut i: usize = 0;
        while i < n
            invariant
                i <= n,
                n == jobs@.len(),
                state.wf(),
                now.wf(),
                config_ids_unique(jobs@),
                forall|j: int| 0 <= j < jobs@.len() ==> (#[trigger] jobs@[j]).schedule.wf(),
                state.version == old(state).version,
                state.jobs@.len() == old(state).jobs@.len(),
                forall|k: int|
                    0 <= k < old(state).jobs@.len() && !(exists|j: int|
                        0 <= j < i && (#[trigger] jobs@[j].id@) == old(state).jobs@[k].id@)
                        ==> state.jobs@[k] == old(state).jobs@[k],
                forall|k: int|
                    (0 <= k < old(state).jobs@.len() && (#[trigger] old(
                        state,
                    ).jobs@[k]).status matches JobStatus::Running { .. }) ==> state.jobs@[k] == old(
                        state,
                    ).jobs@[k],
                forall|k: int, j: int|
                    (0 <= k < old(state).jobs@.len() && 0 <= j < i && (#[trigger] jobs@[j].id@) == (
                    #[trigger] old(state).jobs@[k]).id@ && !(old(state).jobs@[k].status matches
                        JobStatus::Running { .. })) ==> next_run_set(
                        old(state).jobs@[k],
                        state.jobs@[k],
                        (now.epoch_seconds + jobs@[j].schedule.next_run_duration_spec(
                            *now,
                            old(state).jobs@[k].last_run,
                        )) as i64,
                    ),
            decreases n - i,
        {
            let ghost pre = *state;
            let job = &jobs[i];
            let found = state.find_job(job.id.as_str());
            match found {
                None => {
                    proof {
                        assert forall|k: int|
                            0 <= k < old(state).jobs@.len() && (#[trigger] old(
                                state,
                            ).jobs@[k]).id@ == jobs@[i as int].id@ implies false by {
                            assert(state.jobs@[k] == old(state).jobs@[k]);
                            assert(state.contains_job(jobs@[i as int].id@));
                        }
                    }
                },
                Some(k) => {
                    proof {
                        crate::state::lemma_index_of_id(state.jobs@, job.id@, k as int);
                    }
                    let is_running: bool = matches!(state.jobs[k].status, JobStatus::Running { .. });
                    if !is_running {
                        let last_run = state.jobs[k].last_run;
                        let duration = job.schedule.next_run_duration(now, last_run);
                        let next_run: i64 = now.epoch_seconds + duration;
                        state.set_job_next_run(job.id.as_str(), next_run, now.epoch_seconds);
                    }
                },
            }
            proof {
                assert forall|k: int, j: int|
                    (0 <= k < old(state).jobs@.len() && 0 <= j < i + 1 && (
                    #[trigger] jobs@[j].id@) == (#[trigger] old(state).jobs@[k]).id@ && !(old(
                        state,
                    ).jobs@[k].status matches JobStatus::Running { .. })) implies next_run_set(
                        old(state).jobs@[k],
                        state.jobs@[k],
                        (now.epoch_seconds + jobs@[j].schedule.next_run_duration_spec(
                            *now,
                            old(state).jobs@[k].last_run,
                        )) as i64,
                    ) by {
                    if j < i {
                        assert(pre.jobs@[k].id@ == old(state).jobs@[k].id@);
                    }
                }
            }
            i = i + 1;
        }
    }

    /// Diff two job lists by id: jobs only in the new list are added, ids
    /// only in the old list are removed, and jobs in both whose paths or
    /// schedule differ are modified with the kind of difference.
    pub fn detect_config_changes(old_jobs: &Vec<BackupJob>, new_jobs: &Vec<BackupJob>) -> (r:
        ConfigChanges)
        requires
            config_ids_unique(old_jobs@),
        ensures
            r.added@ == new_jobs@.filter(
                |j: BackupJob| !config_contains_id(old_jobs@, j.id@),
            ),
            r.removed@ == old_jobs@.filter(
                |j: BackupJob| !config_contains_id(new_jobs@, j.id@),
            ).map_values(|j: BackupJob| j.id),
            r.modified@ =~= spec_modified_list(old_jobs@, new_jobs@, new_jobs@.len() as int),
    {
        let mut added: Vec<BackupJob> = Vec::new();
        let mut removed: Vec<String> = Vec::new();
        let mut modified: Vec<ModifiedJob> = Vec::new();
        proof {
            reveal(Seq::filter);
        }
        let n_new = new_jobs.len();
        let mut i: usize = 0;
        while i < n_new
            invariant
                i <= n_new,
                n_new == new_jobs@.len(),
                config_ids_unique(old_jobs@),
                added@ == new_jobs@.subrange(0, i as int).filter(
                    |j: BackupJob| !config_contains_id(old_jobs@, j.id@),
                ),
                modified@ == spec_modified_list(old_jobs@, new_jobs@, i as int),
            decreases n_new - i,
        {
            let found = Self::position_of_id(old_jobs, new_jobs[i].id.as_str());
            match found {
                None => {
                    added.push(new_jobs[i].clone());
                },
                Some(k) => {
                    proof {
                        lemma_config_index(old_jobs@, new_jobs@[i as int].id@, k as int);
                    }
                    let schedule_changed: bool = !(new_jobs[i].schedule
                        == old_jobs[k].schedule);
                    let path_changed: bool = !(new_jobs[i].source == old_jobs[k].source)
                        || !(new_jobs[i].target == old_jobs[k].target);
                    if schedule_changed || path_changed {
                        let change_type = if schedule_changed && path_changed {
                            ConfigChangeType::PathAndSchedule
                        } else if path_changed {
                            ConfigChangeType::PathChanged
                        } else {
                            ConfigChangeType::ScheduleOnly
                        };
                        modified.push(ModifiedJob { job: new_jobs[i].clone(), change_type });
                    }
                },
            }
            proof {
                reveal(Seq::filter);
                let sub1 = new_jobs@.subrange(0, i + 1 as int);
                assert(sub1.drop_last() =~= new_jobs@.subrange(0, i as int));
                assert(sub1.last() == new_jobs@[i as int]);
                assert(added@ =~= sub1.filter(
                    |j: BackupJob| !config_contains_id(old_jobs@, j.id@),
                ));
                assert(modified@ =~= spec_modified_list(old_jobs@, new_jobs@, i + 1 as int));
            }
            i = i + 1;
        }
        let n_old = old_jobs.len();
        let mut m: usize = 0;
        while m < n_old
            invariant
                m <= n_old,
                n_old == old_jobs@.len(),
                removed@ == old_jobs@.subrange(0, m as int).filter(
                    |j: BackupJob| !config_contains_id(new_jobs@, j.id@),
                ).map_values(|j: BackupJob| j.id),
            decreases n_old - m,
        {
            let found = Self::position_of_id(new_jobs, old_jobs[m].id.as_str());
            if found.is_none() {
                removed.push(old_jobs[m].id.clone());
            }
            proof {
                reveal(Seq::filter);
                let sub1 = old_jobs@.subrange(0, m + 1 as int);
                assert(sub1.drop_last() =~= old_jobs@.subrange(0, m as int));
                assert(sub1.last() == old_jobs@[m as int]);
                assert(removed@ =~= sub1.filter(
                    |j: BackupJob| !config_contains_id(new_jobs@, j.id@),
                ).map_values(|j: BackupJob| j.id));
            }
            m = m + 1;
        }
        proof {
            assert(new_jobs@.subrange(0, n_new as int) =~= new_jobs@);
            assert(old_jobs@.subrange(0, n_old as int) =~= old_jobs@);
        }
        ConfigChanges { added, removed, modified }
    }

    /// The position of the first job carrying `id`.
    fn position_of_id(jobs: &Vec<BackupJob>, id: &str) -> (r: Option<usize>)
        ensures
            match r {
                Some(i) => i < jobs@.len() && jobs@[i as int].id@ == id@,
                None => !config_contains_id(jobs@, id@),
            },
    {
        let mut i: usize = 0;
        while i < jobs.len()
            invariant
                i <= jobs@.len(),
                forall|k: int| 0 <= k < i ==> (#[trigger] jobs@[k].id@) != id@,
            decreases jobs@.len() - i,
        {
            if str_eq(jobs[i].id.as_str(), id) {
                return Some(i);
            }
            i = i + 1;
        }
        None
    }
}

/// With unique ids, any position carrying `id` is the only one.
proof fn lemma_config_index(jobs: Seq<BackupJob>, id: Seq<char>, i: int)
    requires
        config_ids_unique(jobs),
        0 <= i < jobs.len(),
        jobs[i].id@ == id,
    ensures
        forall|k: int| 0 <= k < jobs.len() && (#[trigger] jobs[k].id@) == id ==> k == i,
{
    assert forall|k: int| 0 <= k < jobs.len() && (#[trigger] jobs[k].id@) == id implies k == i by {
        if k < i {
            assert(jobs[k].id@ != jobs[i].id@);
        } else if i < k {
            assert(jobs[i].id@ != jobs[k].id@);
        }
    }
}

/// The kind of change between an old and a new job with the same id, when
/// any: paths compared by value, schedules structurally.
pub open spec fn spec_change_type(o: BackupJob, n: BackupJob) -> Option<ConfigChangeType> {
    let schedule_changed = n.schedule != o.schedule;
    let path_changed = n.source@ != o.source@ || n.target@ != o.target@;
    if schedule_changed && path_changed {
        Some(ConfigChangeType::PathAndSchedule)
    } else if path_changed {
        Some(ConfigChangeType::PathChanged)
    } else if schedule_changed {
        Some(ConfigChangeType::ScheduleOnly)
    } else {
        None
    }
}

/// The modified-job reports for the first `k` new jobs: one for each whose
/// id exists in the old list with different paths or schedule.
pub open spec fn spec_modified_list(
    old_jobs: Seq<BackupJob>,
    new_jobs: Seq<BackupJob>,
    k: int,
) -> Seq<ModifiedJob>
    decreases k,
{
    if k <= 0 {
        Seq::empty()
    } else {
        spec_modified_list(old_jobs, new_jobs, k - 1) + {
            if config_contains_id(old_jobs, new_jobs[k - 1].id@) {
                let o = old_jobs[spec_config_index(old_jobs, new_jobs[k - 1].id@)];
                match spec_change_type(o, new_jobs[k - 1]) {
                    Some(ct) => seq![ModifiedJob { job: new_jobs[k - 1], change_type: ct }],
                    None => Seq::empty(),
                }
            } else {
                Seq::empty()
            }
        }
    }
}

/// The index of the job carrying `id`; meaningful when the ids are unique
/// and one of them is `id`.
pub open spec fn spec_config_index(jobs: Seq<BackupJob>, id: Seq<char>) -> int {
    choose|i: int| 0 <= i < jobs.len() && (#[trigger] jobs[i].id@) == id
}

/// Soundness of the duplicate list: a non-empty report means the ids are
/// not unique.
proof fn lemma_dup_list_sound(jobs: Seq<BackupJob>, k: int)
    requires
        0 <= k <= jobs.len(),
        spec_dup_list(jobs, k).len() > 0,
    ensures
        !config_ids_unique(jobs),
    decreases k,
{
    if k > 0 {
        if spec_has_earlier(jobs, k - 1) {
            let j = choose|j: int| 0 <= j < k - 1 && (#[trigger] jobs[j].id@) == jobs[k - 1].id@;
            assert(!config_ids_unique(jobs));
        } else {
            lemma_dup_list_sound(jobs, k - 1);
        }
    }
}

} // verus!
