//! The daemon loop's decisions: which ready jobs to start, and how to apply
//! a changed configuration to the running system. The loop itself - tasks,
//! timers, channels and cancellation tokens - is the caller's concurrency;
//! every choice it acts on is computed and proved here.
use vstd::prelude::*;

use crate::changes::{ConfigChangeType, ConfigChanges, ModifiedJob};
use crate::config::{BackupJob, ServiceConfig};
use crate::observability::{rotation_for, Rotation};
use crate::scheduler::{config_contains_id, config_ids_unique, spec_modified_list, Scheduler};
use crate::text::str_eq;

verus! {

/// Some string in the list reads `s`.
pub open spec fn spec_contains_str(v: Seq<String>, s: Seq<char>) -> bool {
    exists|i: int| 0 <= i < v.len() && (#[trigger] v[i]@) == s
}

/// `j` is one of the first `bound` jobs.
pub open spec fn spec_from_prefix(jobs: Seq<BackupJob>, bound: int, j: BackupJob) -> bool {
    exists|m: int| 0 <= m < bound && #[trigger] jobs[m] == j
}

/// Whether some string in the list reads `s`.
pub fn contains_str(v: &Vec<String>, s: &str) -> (r: bool)
    ensures
        r == spec_contains_str(v@, s@),
{
    let mut i: usize = 0;
    while i < v.len()
        invariant
            i <= v@.len(),
            forall|k: int| 0 <= k < i ==> (#[trigger] v@[k]@) != s@,
        decreases v@.len() - i,
    {
        if str_eq(v[i].as_str(), s) {
            return true;
        }
        i = i + 1;
    }
    false
}

/// The ready jobs the daemon should start this tick: those not already
/// running. The result never starts the same id twice, so one job is never
/// run by two tasks at once.
pub fn jobs_to_start(ready: &Vec<BackupJob>, running: &Vec<String>) -> (r: Vec<BackupJob>)
    requires
        config_ids_unique(ready@),
    ensures
        r@ == ready@.filter(|j: BackupJob| !spec_contains_str(running@, j.id@)),
        forall|k: int|
            0 <= k < r@.len() ==> !spec_contains_str(running@, (#[trigger] r@[k]).id@),
        forall|k1: int, k2: int| 0 <= k1 < k2 < r@.len() ==> r@[k1].id@ != r@[k2].id@,
{
    let mut r: Vec<BackupJob> = Vec::new();
    proof {
        reveal(Seq::filter);
    }
    let mut i: usize = 0;
    while i < ready.len()
        invariant
            i <= ready@.len(),
            config_ids_unique(ready@),
            r@ == ready@.subrange(0, i as int).filter(
                |j: BackupJob| !spec_contains_str(running@, j.id@),
            ),
            forall|k: int|
                0 <= k < r@.len() ==> !spec_contains_str(running@, (#[trigger] r@[k]).id@),
            forall|k: int| 0 <= k < r@.len() ==> spec_from_prefix(ready@, i as int, #[trigger] r@[k]),
            forall|k1: int, k2: int| 0 <= k1 < k2 < r@.len() ==> r@[k1].id@ != r@[k2].id@,
        decreases ready@.len() - i,
    {
        let ghost r_pre = r@;
        if !contains_str(running, ready[i].id.as_str()) {
            r.push(ready[i].clone());
            proof {
                assert(spec_from_prefix(ready@, i + 1 as int, ready@[i as int]));
                assert forall|k1: int, k2: int|
                    0 <= k1 < k2 < r@.len() implies r@[k1].id@ != r@[k2].id@ by {
                    if k2 == r@.len() - 1 {
                        let m = choose|m: int|
                            0 <= m < i && #[trigger] ready@[m] == r_pre[k1];
                        assert(ready@[m].id@ != ready@[i as int].id@);
                    }
                }
            }
        }
        proof {
            reveal(Seq::filter);
            let sub1 = ready@.subrange(0, i + 1 as int);
            assert(sub1.drop_last() =~= ready@.subrange(0, i as int));
            assert(sub1.last() == ready@[i as int]);
            assert(r@ =~= sub1.filter(|j: BackupJob| !spec_contains_str(running@, j.id@)));
            assert forall|k: int| 0 <= k < r@.len() implies spec_from_prefix(
                ready@,
                i + 1 as int,
                #[trigger] r@[k],
            ) by {
                if k < r_pre.len() {
                    let m = choose|m: int| 0 <= m < i && #[trigger] ready@[m] == r_pre[k];
                    assert(ready@[m] == r@[k]);
                }
            }
        }
        i = i + 1;
    }
    proof {
        assert(ready@.subrange(0, ready@.len() as int) =~= ready@);
    }
    r
}

/// How the daemon applies a changed configuration: which global settings
/// moved, the job diff, and exactly which running tasks to cancel. Jobs
/// whose only difference is the schedule are left running.
#[derive(Debug)]
pub struct ConfigChangePlan {
    pub retention_changed: bool,
    pub log_level_changed: bool,
    pub log_directory_changed: bool,
    pub log_rotation_changed: bool,
    pub state_path_changed: bool,
    /// The rotation policy of the new configuration.
    pub rotation: Rotation,
    pub changes: ConfigChanges,
    /// Removed ids with a running task: cancel the task.
    pub cancel_removed: Vec<String>,
    /// Path-changed jobs with a running task: cancel, mark failed, update
    /// the stored paths.
    pub cancel_path_changed: Vec<BackupJob>,
    /// Path-changed jobs without a running task: update the stored paths.
    pub update_paths: Vec<BackupJob>,
}

/// Whether two optional strings read the same.
pub open spec fn spec_opt_str_eq(a: Option<String>, b: Option<String>) -> bool {
    match (a, b) {
        (Some(x), Some(y)) => x@ == y@,
        (None, None) => true,
        _ => false,
    }
}

fn opt_str_eq(a: &Option<String>, b: &Option<String>) -> (r: bool)
    ensures
        r == spec_opt_str_eq(*a, *b),
{
    match (a, b) {
        (Some(x), Some(y)) => str_eq(x.as_str(), y.as_str()),
        (None, None) => true,
        _ => false,
    }
}

/// Every modified entry reports a job of the new configuration.
proof fn lemma_modified_in_new(old_jobs: Seq<BackupJob>, new_jobs: Seq<BackupJob>, k: int)
    requires
        0 <= k <= new_jobs.len(),
    ensures
        forall|m: int|
            0 <= m < spec_modified_list(old_jobs, new_jobs, k).len() ==> config_contains_id(
                new_jobs,
                (#[trigger] spec_modified_list(old_jobs, new_jobs, k)[m]).job.id@,
            ),
    decreases k,
{
    if k > 0 {
        lemma_modified_in_new(old_jobs, new_jobs, k - 1);
        let prev = spec_modified_list(old_jobs, new_jobs, k - 1);
        let cur = spec_modified_list(old_jobs, new_jobs, k);
        assert forall|m: int| 0 <= m < cur.len() implies config_contains_id(
            new_jobs,
            (#[trigger] cur[m]).job.id@,
        ) by {
            if m < prev.len() {
                assert(cur[m] == prev[m]);
            } else {
                assert(cur[m].job == new_jobs[k - 1]);
                assert(new_jobs[k - 1].id@ == cur[m].job.id@);
            }
        }
    }
}

/// Compute the daemon's response to a new configuration against the
/// running tasks: what the settings changed, the job diff, which tasks to
/// cancel and which path updates to apply. A job whose only per-job
/// difference is its schedule never appears in a cancellation list.
pub fn plan_config_change(
    old: &ServiceConfig,
    new: &ServiceConfig,
    running: &Vec<String>,
) -> (r: ConfigChangePlan)
    requires
        config_ids_unique(old.jobs@),
        config_ids_unique(new.jobs@),
    ensures
        r.retention_changed == (old.retention_count != new.retention_count),
        r.log_level_changed == (old.log_level@ != new.log_level@),
        r.log_directory_changed == !spec_opt_str_eq(old.log_directory, new.log_directory),
        r.log_rotation_changed == (old.log_rotation != new.log_rotation),
        r.state_path_changed == (old.state_path@ != new.state_path@),
        r.changes.added@ == new.jobs@.filter(
            |j: BackupJob| !config_contains_id(old.jobs@, j.id@),
        ),
        r.changes.removed@ == old.jobs@.filter(
            |j: BackupJob| !config_contains_id(new.jobs@, j.id@),
        ).map_values(|j: BackupJob| j.id),
        r.changes.modified@ == spec_modified_list(old.jobs@, new.jobs@, new.jobs@.len() as int),
        r.cancel_removed@ == r.changes.removed@.filter(
            |id: String| spec_contains_str(running@, id@),
        ),
        r.cancel_path_changed@ == r.changes.modified@.filter(
            |m: ModifiedJob| m.change_type != ConfigChangeType::ScheduleOnly
                && spec_contains_str(running@, m.job.id@),
        ).map_values(|m: ModifiedJob| m.job),
        r.update_paths@ == r.changes.modified@.filter(
            |m: ModifiedJob| m.change_type != ConfigChangeType::ScheduleOnly
                && !spec_contains_str(running@, m.job.id@),
        ).map_values(|m: ModifiedJob| m.job),
        // schedule-only changes abort nothing: their ids appear in no
        // cancellation list
        forall|k: int, m: int|
            (0 <= k < r.changes.modified@.len() && (#[trigger] r.changes.modified@[k]).change_type
                == ConfigChangeType::ScheduleOnly && 0 <= m < r.cancel_path_changed@.len())
                ==> (#[trigger] r.cancel_path_changed@[m]).id@ != r.changes.modified@[k].job.id@,
        forall|k: int, m: int|
            (0 <= k < r.changes.modified@.len() && (#[trigger] r.changes.modified@[k]).change_type
                == ConfigChangeType::ScheduleOnly && 0 <= m < r.cancel_removed@.len()) ==> (
            #[trigger] r.cancel_removed@[m])@ != r.changes.modified@[k].job.id@,
{
    let retention_changed = old.retention_count != new.retention_count;
    let log_level_changed = !str_eq(old.log_level.as_str(), new.log_level.as_str());
    let log_directory_changed = !opt_str_eq(&old.log_directory, &new.log_directory);
    let log_rotation_changed = !(old.log_rotation == new.log_rotation);
    let state_path_changed = !str_eq(old.state_path.as_str(), new.state_path.as_str());
    let rotation = rotation_for(&new.log_rotation);
    let changes = Scheduler::detect_config_changes(&old.jobs, &new.jobs);
    proof {
        reveal(Seq::filter);
    }
    // removed ids whose task is running
    let mut cancel_removed: Vec<String> = Vec::new();
    let mut i: usize = 0;
    while i < changes.removed.len()
        invariant
            i <= changes.removed@.len(),
            cancel_removed@ == changes.removed@.subrange(0, i as int).filter(
                |id: String| spec_contains_str(running@, id@),
            ),
        decreases changes.removed@.len() - i,
    {
        if contains_str(running, changes.removed[i].as_str()) {
            cancel_removed.push(changes.removed[i].clone());
        }
        proof {
            reveal(Seq::filter);
            let sub1 = changes.removed@.subrange(0, i + 1 as int);
            assert(sub1.drop_last() =~= changes.removed@.subrange(0, i as int));
            assert(sub1.last() == changes.removed@[i as int]);
            assert(cancel_removed@ =~= sub1.filter(
                |id: String| spec_contains_str(running@, id@),
            ));
        }
        i = i + 1;
    }
    // path-changed jobs, split by whether their task is running
    let mut cancel_path_changed: Vec<BackupJob> = Vec::new();
    let mut update_paths: Vec<BackupJob> = Vec::new();
    let mut m: usize = 0;
    while m < changes.modified.len()
        invariant
            m <= changes.modified@.len(),
            cancel_path_changed@ == changes.modified@.subrange(0, m as int).filter(
                |e: ModifiedJob| e.change_type != ConfigChangeType::ScheduleOnly
                    && spec_contains_str(running@, e.job.id@),
            ).map_values(|e: ModifiedJob| e.job),
            update_paths@ == changes.modified@.subrange(0, m as int).filter(
                |e: ModifiedJob| e.change_type != ConfigChangeType::ScheduleOnly
                    && !spec_contains_str(running@, e.job.id@),
            ).map_values(|e: ModifiedJob| e.job),
        decreases changes.modified@.len() - m,
    {
        let schedule_only: bool = matches!(
            changes.modified[m].change_type,
            ConfigChangeType::ScheduleOnly
        );
        if !schedule_only {
            if contains_str(running, changes.modified[m].job.id.as_str()) {
                cancel_path_changed.push(changes.modified[m].job.clone());
            } else {
                update_paths.push(changes.modified[m].job.clone());
            }
        }
        proof {
            reveal(Seq::filter);
            let sub1 = changes.modified@.subrange(0, m + 1 as int);
            assert(sub1.drop_last() =~= changes.modified@.subrange(0, m as int));
            assert(sub1.last() == changes.modified@[m as int]);
            assert(cancel_path_changed@ =~= sub1.filter(
                |e: ModifiedJob| e.change_type != ConfigChangeType::ScheduleOnly
                    && spec_contains_str(running@, e.job.id@),
            ).map_values(|e: ModifiedJob| e.job));
            assert(update_paths@ =~= sub1.filter(
                |e: ModifiedJob| e.change_type != ConfigChangeType::ScheduleOnly
                    && !spec_contains_str(running@, e.job.id@),
            ).map_values(|e: ModifiedJob| e.job));
        }
        m = m + 1;
    }
    proof {
        assert(changes.removed@.subrange(0, changes.removed@.len() as int) =~= changes.removed@);
        assert(changes.modified@.subrange(0, changes.modified@.len() as int)
            =~= changes.modified@);
        lemma_plan_preserves_schedule_only(
            old.jobs@,
            new.jobs@,
            running@,
            changes.removed@,
            changes.modified@,
            cancel_removed@,
            cancel_path_changed@,
        );
    }
    ConfigChangePlan {
        retention_changed,
        log_level_changed,
        log_directory_changed,
        log_rotation_changed,
        state_path_changed,
        rotation,
        changes,
        cancel_removed,
        cancel_path_changed,
        update_paths,
    }
}

/// A schedule-only modification never reaches a cancellation list: the
/// path-changed list holds only entries of another change type, whose ids
/// differ by uniqueness, and the removed list holds only ids absent from
/// the new configuration, while every modified id is present in it.
proof fn lemma_plan_preserves_schedule_only(
    old_jobs: Seq<BackupJob>,
    new_jobs: Seq<BackupJob>,
    running: Seq<String>,
    removed: Seq<String>,
    modified: Seq<ModifiedJob>,
    cancel_removed: Seq<String>,
    cancel_path_changed: Seq<BackupJob>,
)
    requires
        config_ids_unique(new_jobs),
        modified == spec_modified_list(old_jobs, new_jobs, new_jobs.len() as int),
        removed == old_jobs.filter(|j: BackupJob| !config_contains_id(new_jobs, j.id@)).map_values(
            |j: BackupJob| j.id,
        ),
        cancel_removed == removed.filter(|id: String| spec_contains_str(running, id@)),
        cancel_path_changed == modified.filter(
            |e: ModifiedJob| e.change_type != ConfigChangeType::ScheduleOnly && spec_contains_str(
                running,
                e.job.id@,
            ),
        ).map_values(|e: ModifiedJob| e.job),
    ensures
        forall|k: int, m: int|
            (0 <= k < modified.len() && (#[trigger] modified[k]).change_type
                == ConfigChangeType::ScheduleOnly && 0 <= m < cancel_path_changed.len()) ==> (
            #[trigger] cancel_path_changed[m]).id@ != modified[k].job.id@,
        forall|k: int, m: int|
            (0 <= k < modified.len() && (#[trigger] modified[k]).change_type
                == ConfigChangeType::ScheduleOnly && 0 <= m < cancel_removed.len()) ==> (
            #[trigger] cancel_removed[m])@ != modified[k].job.id@,
{
    let pred_path = |e: ModifiedJob|
        e.change_type != ConfigChangeType::ScheduleOnly && spec_contains_str(running, e.job.id@);
    let pred_removed = |j: BackupJob| !config_contains_id(new_jobs, j.id@);
    let pred_running = |id: String| spec_contains_str(running, id@);
    lemma_modified_unique(old_jobs, new_jobs, new_jobs.len() as int);
    lemma_modified_in_new(old_jobs, new_jobs, new_jobs.len() as int);
    assert forall|k: int, m: int|
        (0 <= k < modified.len() && (#[trigger] modified[k]).change_type
            == ConfigChangeType::ScheduleOnly && 0 <= m < cancel_path_changed.len()) implies (
    #[trigger] cancel_path_changed[m]).id@ != modified[k].job.id@ by {
        let e = modified.filter(pred_path)[m];
        modified.lemma_filter_pred(pred_path, m);
        lemma_filter_membership(modified, pred_path, m);
        let src = choose|s: int|
            0 <= s < modified.len() && #[trigger] modified[s] == modified.filter(pred_path)[m];
        assert(modified[src].change_type != ConfigChangeType::ScheduleOnly);
        assert(src != k);
        assert(modified[src].job.id@ != modified[k].job.id@);
        assert(cancel_path_changed[m] == e.job);
    }
    assert forall|k: int, m: int|
        (0 <= k < modified.len() && (#[trigger] modified[k]).change_type
            == ConfigChangeType::ScheduleOnly && 0 <= m < cancel_removed.len()) implies (
    #[trigger] cancel_removed[m])@ != modified[k].job.id@ by {
        removed.lemma_filter_pred(pred_running, m);
        lemma_filter_membership(removed, pred_running, m);
        let s1 = choose|s: int|
            0 <= s < removed.len() && #[trigger] removed[s] == removed.filter(pred_running)[m];
        // removed[s1] is the id of an old job absent from the new list
        let base = old_jobs.filter(pred_removed);
        assert(removed[s1] == base.map_values(|j: BackupJob| j.id)[s1]);
        assert(removed[s1] == base[s1].id);
        old_jobs.lemma_filter_pred(pred_removed, s1);
        assert(!config_contains_id(new_jobs, base[s1].id@));
        assert(config_contains_id(new_jobs, modified[k].job.id@));
        assert(cancel_removed[m] == removed.filter(pred_running)[m]);
    }
}

/// Distinct modified entries report distinct ids, because each comes from a
/// distinct new job and the new ids are unique.
proof fn lemma_modified_unique(old_jobs: Seq<BackupJob>, new_jobs: Seq<BackupJob>, k: int)
    requires
        config_ids_unique(new_jobs),
        k <= new_jobs.len(),
    ensures
        forall|a: int, b: int|
            0 <= a < b < spec_modified_list(old_jobs, new_jobs, k).len() ==> (
            #[trigger] spec_modified_list(old_jobs, new_jobs, k)[a]).job.id@ != (
            #[trigger] spec_modified_list(old_jobs, new_jobs, k)[b]).job.id@,
        forall|a: int|
            0 <= a < spec_modified_list(old_jobs, new_jobs, k).len() ==> exists|j: int|
                0 <= j < k && (#[trigger] spec_modified_list(old_jobs, new_jobs, k)[a]).job
                    == new_jobs[j],
    decreases k,
{
    if k > 0 {
        lemma_modified_unique(old_jobs, new_jobs, k - 1);
        let prev = spec_modified_list(old_jobs, new_jobs, k - 1);
        let cur = spec_modified_list(old_jobs, new_jobs, k);
        assert forall|a: int| 0 <= a < cur.len() implies exists|j: int|
            0 <= j < k && (#[trigger] cur[a]).job == new_jobs[j] by {
            if a < prev.len() {
                assert(cur[a] == prev[a]);
                let j = choose|j: int| 0 <= j < k - 1 && #[trigger] prev[a].job == new_jobs[j];
                assert(cur[a].job == new_jobs[j]);
            } else {
                assert(cur[a].job == new_jobs[k - 1]);
            }
        }
        assert forall|a: int, b: int| 0 <= a < b < cur.len() implies (
        #[trigger] cur[a]).job.id@ != (#[trigger] cur[b]).job.id@ by {
            if b < prev.len() {
                assert(cur[a] == prev[a] && cur[b] == prev[b]);
            } else {
                assert(cur[b].job == new_jobs[k - 1]);
                let j = choose|j: int| 0 <= j < k - 1 && #[trigger] prev[a].job == new_jobs[j];
                assert(cur[a] == prev[a]);
                assert(new_jobs[j].id@ != new_jobs[k - 1].id@);
            }
        }
    }
}

/// Every element a filter keeps comes from the filtered sequence.
proof fn lemma_filter_membership<A>(s: Seq<A>, pred: spec_fn(A) -> bool, m: int)
    requires
        0 <= m < s.filter(pred).len(),
    ensures
        exists|i: int| 0 <= i < s.len() && #[trigger] s[i] == s.filter(pred)[m],
    decreases s.len(),
{
    reveal(Seq::filter);
    if s.len() > 0 {
        let sub = s.drop_last();
        if pred(s.last()) && m == s.filter(pred).len() - 1 {
            assert(s[s.len() - 1] == s.filter(pred)[m]);
        } else {
            lemma_filter_membership(sub, pred, m);
            let i = choose|i: int| 0 <= i < sub.len() && #[trigger] sub[i] == sub.filter(pred)[m];
            assert(s[i] == s.filter(pred)[m]);
        }
    }
}

} // verus!
