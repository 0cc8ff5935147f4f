use vstd::prelude::*;
use crate::encoding::{dec_text, to_decimal};
use crate::model::transfer::{TransferJob, TransferJobView, TransferState, is_active};

verus! {

/// A pending job older than this many seconds at start-up is cancelled.
pub const STALE_PENDING_SECS: u64 = 3600;

/// Tombstones older than this many seconds are purged.
pub const TOMBSTONE_TTL_SECS: u64 = 2_592_000;

/// What start-up does with a job left unfinished by the previous run.
#[derive(Debug, Clone, Copy, PartialEq, Eq, Structural)]
pub enum RecoveryAction {
    /// It was running: pause it so the user can resume it.
    Pause,
    /// It waited too long for an answer: cancel it.
    Cancel,
    /// Leave it as it is.
    Keep,
}

/// Running or verifying jobs are paused, pending jobs created more than an
/// hour before `now` are cancelled, all others kept.
pub open spec fn spec_recovery_action(job: TransferJob, now: u64) -> RecoveryAction {
    match job.state {
        TransferState::Active { .. } | TransferState::Verifying => RecoveryAction::Pause,
        TransferState::Pending => if job.created_at + STALE_PENDING_SECS < now {
            RecoveryAction::Cancel
        } else {
            RecoveryAction::Keep
        },
        _ => RecoveryAction::Keep,
    }
}

/// The recovery of `job` at start-up time `now`; see [`spec_recovery_action`].
pub fn recovery_action(job: &TransferJob, now: u64) -> (res: RecoveryAction)
    ensures
        res == spec_recovery_action(*job, now),
{
    match job.state {
        TransferState::Active { .. } | TransferState::Verifying => RecoveryAction::Pause,
        TransferState::Pending => {
            if now > STALE_PENDING_SECS && job.created_at < now - STALE_PENDING_SECS {
                RecoveryAction::Cancel
            } else {
                RecoveryAction::Keep
            }
        },
        _ => RecoveryAction::Keep,
    }
}

/// The audit details of a recovery: `recovered=<n>, cancelled=<m>`.
pub fn recovery_details(recovered: u32, cancelled: u32) -> (res: String)
    ensures
        res@ == "recovered="@ + dec_text(recovered as nat) + ", cancelled="@ + dec_text(cancelled as nat),
{
    let mut s = "recovered=".to_string();
    let a = to_decimal(recovered as u64);
    s.append(a.as_str());
    s.append(", cancelled=");
    let b = to_decimal(cancelled as u64);
    s.append(b.as_str());
    s
}

/// Tombstones last modified before this time, at `now`, are purged.
pub fn tombstone_cutoff(now: u64) -> (res: u64)
    ensures
        res == if now >= TOMBSTONE_TTL_SECS { now - TOMBSTONE_TTL_SECS } else { 0 },
{
    now.saturating_sub(TOMBSTONE_TTL_SECS)
}

/// The job to store after recovering `job` at `now`: paused when it is
/// paused and was active (pausing a verifying job is refused, so that one is
/// left as it is), cancelled when it is cancelled, none otherwise.
pub open spec fn recovered_job(job: TransferJob, now: u64) -> Option<TransferJobView> {
    match spec_recovery_action(job, now) {
        RecoveryAction::Pause => if is_active(job.state) {
            Some(TransferJobView { state: TransferState::Paused { checkpoint: None }, ..job@ })
        } else {
            None
        },
        RecoveryAction::Cancel => Some(TransferJobView { state: TransferState::Cancelled, ..job@ }),
        RecoveryAction::Keep => None,
    }
}

/// The jobs to store after recovering `jobs`, in order.
pub open spec fn recovered_jobs(jobs: Seq<TransferJob>, now: u64) -> Seq<TransferJobView>
    decreases jobs.len(),
{
    if jobs.len() == 0 {
        Seq::empty()
    } else {
        recovered_jobs(jobs.drop_last(), now) + match recovered_job(jobs.last(), now) {
            Some(v) => seq![v],
            None => Seq::empty(),
        }
    }
}

/// How many of `jobs` recovery handles with `action`.
pub open spec fn count_action(jobs: Seq<TransferJob>, now: u64, action: RecoveryAction) -> nat
    decreases jobs.len(),
{
    if jobs.len() == 0 {
        0
    } else {
        count_action(jobs.drop_last(), now, action) + if spec_recovery_action(jobs.last(), now) == action {
            1nat
        } else {
            0
        }
    }
}

/// What start-up recovery does with the unfinished jobs of the last run.
pub struct RecoveryPlan {
    /// The jobs to store, in order.
    pub updated: Vec<TransferJob>,
    /// How many jobs were paused (those that could not be are counted too).
    pub recovered: u32,
    /// How many stale pending jobs were cancelled.
    pub cancelled: u32,
    /// The audit details to record, when anything was recovered or cancelled.
    pub details: Option<String>,
}

/// A count as a `u32`, held at the largest value it can take.
pub open spec fn capped(n: nat) -> u32 {
    if n <= u32::MAX {
        n as u32
    } else {
        u32::MAX
    }
}

/// The recovery of `jobs` at start-up time `now`; the counts stop at the
/// largest `u32`.
pub fn plan_recovery(jobs: Vec<TransferJob>, now: u64) -> (res: RecoveryPlan)
    ensures
        res.updated@.map_values(|j: TransferJob| j@) == recovered_jobs(jobs@, now),
        res.recovered == capped(count_action(jobs@, now, RecoveryAction::Pause)),
        res.cancelled == capped(count_action(jobs@, now, RecoveryAction::Cancel)),
        (res.recovered > 0 || res.cancelled > 0) <==> res.details is Some,
        res.details matches Some(d) ==> d@ == "recovered="@ + dec_text(res.recovered as nat) + ", cancelled="@
            + dec_text(res.cancelled as nat),
{
    let mut updated: Vec<TransferJob> = Vec::new();
    let mut recovered: u32 = 0;
    let mut cancelled: u32 = 0;
    let mut i: usize = 0;
    while i < jobs.len()
        invariant
            i <= jobs@.len(),
            updated@.map_values(|j: TransferJob| j@) == recovered_jobs(jobs@.subrange(0, i as int), now),
            recovered == capped(count_action(jobs@.subrange(0, i as int), now, RecoveryAction::Pause)),
            cancelled == capped(count_action(jobs@.subrange(0, i as int), now, RecoveryAction::Cancel)),
        decreases jobs@.len() - i,
    {
        let ghost sub = jobs@.subrange(0, i + 1);
        proof {
            assert(sub.drop_last() =~= jobs@.subrange(0, i as int));
            assert(sub.last() == jobs@[i as int]);
        }
        let ghost before = updated@.map_values(|j: TransferJob| j@);
        let job = jobs[i].clone();
        match recovery_action(&job, now) {
            RecoveryAction::Pause => {
                recovered = recovered.saturating_add(1);
                match job.pause(None) {
                    Ok(j) => {
                        updated.push(j);
                        assert(updated@.map_values(|j: TransferJob| j@) =~= before.push(updated@.last()@));
                    },
                    Err(_) => {},
                }
            },
            RecoveryAction::Cancel => {
                cancelled = cancelled.saturating_add(1);
                match job.cancel() {
                    Ok(j) => {
                        updated.push(j);
                        assert(updated@.map_values(|j: TransferJob| j@) =~= before.push(updated@.last()@));
                    },
                    Err(_) => {},
                }
            },
            RecoveryAction::Keep => {},
        }
        i = i + 1;
    }
    assert(jobs@.subrange(0, jobs@.len() as int) =~= jobs@);
    let details = if recovered > 0 || cancelled > 0 {
        Some(recovery_details(recovered, cancelled))
    } else {
        None
    };
    RecoveryPlan { updated, recovered, cancelled, details }
}

} // verus!
