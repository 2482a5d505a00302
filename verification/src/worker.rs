//! The worker's dispatch decisions: what each lifecycle outcome earns in
//! the queue, and the fixed sizing of the polling loop.

use vstd::prelude::*;
use crate::lifecycle::Outcome;
use crate::model::Error;
use crate::store::{fail_post, finish_post, QueueStore};

verus! {

/// How many records one claim requests, and how many task lifecycles run
/// concurrently.
pub const CONCURRENCY: u32 = 50;

/// Seconds between poll cycles, and the backoff after a failed claim.
pub const POLL_INTERVAL_SECS: u64 = 10;

/// Seconds a lifecycle waits for a terminal condition before timing out.
pub const WAIT_TIMEOUT_SECS: u64 = 20;

/// The queue transition a lifecycle outcome earns.
#[derive(Clone, Copy, PartialEq, Eq, Structural, Debug)]
pub enum Report {
    /// Mark the record finished.
    Finish,
    /// Mark the record failed and count the failure.
    Fail,
}

/// Success is the only outcome marked finished; a failure and a timeout are
/// both counted failures.
pub open spec fn report_for_spec(outcome: Outcome) -> Report {
    if outcome == Outcome::Completed {
        Report::Finish
    } else {
        Report::Fail
    }
}

/// Which queue transition a lifecycle outcome earns.
pub fn report_for(outcome: Outcome) -> (res: Report)
    ensures
        res == report_for_spec(outcome),
{
    match outcome {
        Outcome::Completed => Report::Finish,
        Outcome::Failed => Report::Fail,
        Outcome::TimedOut => Report::Fail,
    }
}

/// Feeds one lifecycle outcome back into the queue at instant `now`: the
/// record is marked finished on success and failed (counting the failure)
/// on a failed or timed-out run.
pub fn apply_outcome_at(
    store: &mut QueueStore,
    job_id: &String,
    outcome: Outcome,
    now: i64,
) -> (res: Result<(), Error>)
    requires
        old(store).wf(),
    ensures
        res is Ok,
        final(store).wf(),
        final(store).tpls() == old(store).tpls(),
        report_for_spec(outcome) == Report::Finish ==> finish_post(
            old(store).recs(),
            final(store).recs(),
            job_id@,
            now,
        ),
        report_for_spec(outcome) == Report::Fail ==> fail_post(
            old(store).recs(),
            final(store).recs(),
            job_id@,
            now,
        ),
{
    match report_for(outcome) {
        Report::Finish => store.finish_at(job_id, now),
        Report::Fail => store.fail_at(job_id, now),
    }
}

} // verus!
