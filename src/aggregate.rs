use vstd::prelude::*;
use crate::status::PipelineStatus;

verus! {

/// The status a run takes from the counts of its succeeded and failed jobs.
pub open spec fn aggregate(total: int, succeeded: int, failed: int) -> PipelineStatus {
    if failed > 0 {
        PipelineStatus::Failed
    } else if succeeded == total {
        PipelineStatus::Completed
    } else {
        PipelineStatus::Running
    }
}

/// Derives a run's status: any failure fails it, all successes complete it,
/// anything else leaves it running.
pub fn aggregate_status(total_jobs: u64, succeeded: u64, failed: u64) -> (r: PipelineStatus)
    ensures
        r == aggregate(total_jobs as int, succeeded as int, failed as int),
{
    if failed > 0 {
        PipelineStatus::Failed
    } else if succeeded == total_jobs {
        PipelineStatus::Completed
    } else {
        PipelineStatus::Running
    }
}

/// A single failed job fails the run, however many others succeeded.
pub proof fn failure_dominates(total: int, succeeded: int, failed: int)
    requires
        failed > 0,
    ensures
        aggregate(total, succeeded, failed) == PipelineStatus::Failed,
{
}

/// A run completes exactly when every job succeeded and none failed.
pub proof fn completion_needs_every_job(total: int, succeeded: int, failed: int)
    requires
        failed >= 0,
    ensures
        aggregate(total, succeeded, failed) == PipelineStatus::Completed <==> (failed == 0
            && succeeded == total),
{
}

} // verus!
