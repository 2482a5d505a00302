//! The queue store: the single owner of persisted maintenance state.
//!
//! This in-memory store gives the queue operations their exact semantics:
//! upsert-style enqueue keyed on the record UUID, the atomic claim that
//! selects due queued records and transitions them to `Running` in the same
//! step, the `Running -> Finished` / `Running -> Failed` transitions, and
//! idempotent delete and clear.

use vstd::prelude::*;
use crate::model::{Error, Job, Maintenance};
use crate::status::JobStatus;

verus! {

/// No two records share a UUID.
pub open spec fn uuids_unique(s: Seq<Maintenance>) -> bool {
    forall|i: int, j: int| 0 <= i < j < s.len() ==> s[i].uuid@ != s[j].uuid@
}

/// No two templates share an id.
pub open spec fn job_ids_unique(s: Seq<Job>) -> bool {
    forall|i: int, j: int| 0 <= i < j < s.len() ==> s[i].id != s[j].id
}

/// Two templates collide on the upsert key (name, image, tag).
pub open spec fn same_job_key(a: Job, b: Job) -> bool {
    a.name@ == b.name@ && a.docker_image@ == b.docker_image@
        && a.docker_image_tag@ == b.docker_image_tag@
}

/// No two templates share the upsert key.
pub open spec fn job_keys_unique(s: Seq<Job>) -> bool {
    forall|i: int, j: int| 0 <= i < j < s.len() ==> !same_job_key(s[i], s[j])
}

/// The shape `enqueue` gives a record before persisting it: the failure
/// counter is reset and the status forced to `Queued`.
pub open spec fn enqueued(job: Maintenance) -> Maintenance {
    Maintenance {
        id: job.id,
        uuid: job.uuid,
        name: job.name,
        created_at: job.created_at,
        updated_at: job.updated_at,
        failed_attempts: 0,
        status: JobStatus::Queued,
        scheduled_for: job.scheduled_for,
        downtime_window_start: job.downtime_window_start,
        downtime_window_end: job.downtime_window_end,
        job_id: job.job_id,
    }
}

/// How `enqueue` relates the record sequence before and after: an upsert
/// keyed on the UUID. An existing record with the same UUID is overwritten
/// in place (no duplicate row); otherwise the record is appended.
pub open spec fn enqueue_post(
    prev: Seq<Maintenance>,
    next: Seq<Maintenance>,
    job: Maintenance,
) -> bool {
    if exists|i: int| 0 <= i < prev.len() && prev[i].uuid@ == job.uuid@ {
        &&& next.len() == prev.len()
        &&& forall|i: int|
            0 <= i < prev.len() ==> next[i] == (if prev[i].uuid@ == job.uuid@ {
                enqueued(job)
            } else {
                prev[i]
            })
    } else {
        next == prev.push(enqueued(job))
    }
}

/// A record is claimable at instant `now`: it is queued, its scheduled time
/// has arrived (a record without one is never due), and its template
/// reference resolves.
pub open spec fn claimable(r: Maintenance, jobs: Seq<Job>, now: i64) -> bool {
    &&& r.status == JobStatus::Queued
    &&& (r.scheduled_for matches Some(t) && t <= now)
    &&& exists|j: int| 0 <= j < jobs.len() && jobs[j].id == r.job_id
}

/// The claimed form of a record: transitioned to `Running` with its
/// timestamp updated; every other field is kept.
pub open spec fn claimed(r: Maintenance, now: i64) -> Maintenance {
    Maintenance {
        id: r.id,
        uuid: r.uuid,
        name: r.name,
        created_at: r.created_at,
        updated_at: Some(now),
        failed_attempts: r.failed_attempts,
        status: JobStatus::Running,
        scheduled_for: r.scheduled_for,
        downtime_window_start: r.downtime_window_start,
        downtime_window_end: r.downtime_window_end,
        job_id: r.job_id,
    }
}

/// What one claim call does, as a function of the prior records: walking in
/// storage order with a budget, every claimable record within the budget is
/// transitioned to its claimed form; the first component is the resulting
/// record sequence, the second the claimed records in order. The claimed
/// set and the returned set are the same by construction: that is the
/// at-most-one-dispatch guarantee the rest of the system depends on.
pub open spec fn claim_plan(
    s: Seq<Maintenance>,
    jobs: Seq<Job>,
    now: i64,
    budget: nat,
) -> (Seq<Maintenance>, Seq<Maintenance>)
    decreases s.len(),
{
    if s.len() == 0 {
        (Seq::empty(), Seq::empty())
    } else {
        let r = s[0];
        if budget > 0 && claimable(r, jobs, now) {
            let rest = claim_plan(s.skip(1), jobs, now, (budget - 1) as nat);
            (seq![claimed(r, now)] + rest.0, seq![claimed(r, now)] + rest.1)
        } else {
            let rest = claim_plan(s.skip(1), jobs, now, budget);
            (seq![r] + rest.0, rest.1)
        }
    }
}

/// How many records are claimable at `now`.
pub open spec fn n_claimable(s: Seq<Maintenance>, jobs: Seq<Job>, now: i64) -> nat
    decreases s.len(),
{
    if s.len() == 0 {
        0
    } else {
        (if claimable(s[0], jobs, now) {
            1nat
        } else {
            0nat
        }) + n_claimable(s.skip(1), jobs, now)
    }
}

/// Extending the records by one on the right extends the claim plan by one
/// step: the new record is claimed exactly when budget is left and it is
/// claimable.
pub proof fn lemma_claim_plan_snoc(
    s: Seq<Maintenance>,
    x: Maintenance,
    jobs: Seq<Job>,
    now: i64,
    budget: nat,
)
    ensures
        ({
            let pre = claim_plan(s, jobs, now, budget);
            claim_plan(s.push(x), jobs, now, budget) == (if pre.1.len() < budget && claimable(
                x,
                jobs,
                now,
            ) {
                (pre.0.push(claimed(x, now)), pre.1.push(claimed(x, now)))
            } else {
                (pre.0.push(x), pre.1)
            })
        }),
    decreases s.len(),
{
    reveal_with_fuel(claim_plan, 3);
    let pre = claim_plan(s, jobs, now, budget);
    if s.len() == 0 {
        assert(s.push(x).skip(1) =~= Seq::<Maintenance>::empty());
        if budget > 0 && claimable(x, jobs, now) {
            assert(claim_plan(s.push(x), jobs, now, budget).0 =~= pre.0.push(claimed(x, now)));
            assert(claim_plan(s.push(x), jobs, now, budget).1 =~= pre.1.push(claimed(x, now)));
        } else {
            assert(claim_plan(s.push(x), jobs, now, budget).0 =~= pre.0.push(x));
            assert(claim_plan(s.push(x), jobs, now, budget).1 =~= pre.1);
        }
    } else {
        assert(s.push(x)[0] == s[0]);
        assert(s.push(x).skip(1) =~= s.skip(1).push(x));
        if budget > 0 && claimable(s[0], jobs, now) {
            let rest = claim_plan(s.skip(1), jobs, now, (budget - 1) as nat);
            lemma_claim_plan_snoc(s.skip(1), x, jobs, now, (budget - 1) as nat);
            assert(pre.1.len() == rest.1.len() + 1);
            if rest.1.len() < (budget - 1) as nat && claimable(x, jobs, now) {
                assert(claim_plan(s.push(x), jobs, now, budget).0 =~= pre.0.push(
                    claimed(x, now),
                ));
                assert(claim_plan(s.push(x), jobs, now, budget).1 =~= pre.1.push(
                    claimed(x, now),
                ));
            } else {
                assert(claim_plan(s.push(x), jobs, now, budget).0 =~= pre.0.push(x));
                assert(claim_plan(s.push(x), jobs, now, budget).1 =~= pre.1);
            }
        } else {
            let rest = claim_plan(s.skip(1), jobs, now, budget);
            lemma_claim_plan_snoc(s.skip(1), x, jobs, now, budget);
            assert(pre.1.len() == rest.1.len());
            if rest.1.len() < budget && claimable(x, jobs, now) {
                assert(claim_plan(s.push(x), jobs, now, budget).0 =~= pre.0.push(
                    claimed(x, now),
                ));
                assert(claim_plan(s.push(x), jobs, now, budget).1 =~= pre.1.push(
                    claimed(x, now),
                ));
            } else {
                assert(claim_plan(s.push(x), jobs, now, budget).0 =~= pre.0.push(x));
                assert(claim_plan(s.push(x), jobs, now, budget).1 =~= pre.1);
            }
        }
    }
}

/// The shape of a claim plan: lengths are preserved, every record is either
/// untouched or claimed, a record is claimed only if it was claimable, the
/// claimed list is exactly the claimed positions in order, and its length
/// is the claimable count capped by the budget.
pub proof fn lemma_claim_plan_shape(s: Seq<Maintenance>, jobs: Seq<Job>, now: i64, budget: nat)
    ensures
        ({
            let plan = claim_plan(s, jobs, now, budget);
            &&& plan.0.len() == s.len()
            &&& forall|i: int|
                0 <= i < s.len() ==> plan.0[i] == s[i] || (claimable(s[i], jobs, now) && plan.0[i]
                    == claimed(s[i], now))
            &&& forall|k: int|
                0 <= k < plan.1.len() ==> exists|i: int|
                    0 <= i < s.len() && claimable(s[i], jobs, now) && #[trigger] plan.1[k]
                        == claimed(s[i], now) && plan.0[i] == plan.1[k]
            &&& plan.1.len() == (if n_claimable(s, jobs, now) < budget {
                n_claimable(s, jobs, now)
            } else {
                budget
            })
        }),
    decreases s.len(),
{
    let plan = claim_plan(s, jobs, now, budget);
    if s.len() == 0 {
    } else {
        let tail = s.skip(1);
        if budget > 0 && claimable(s[0], jobs, now) {
            let rest = claim_plan(tail, jobs, now, (budget - 1) as nat);
            lemma_claim_plan_shape(tail, jobs, now, (budget - 1) as nat);
            assert(plan.0[0] == claimed(s[0], now));
            assert(forall|i: int| 1 <= i < s.len() ==> plan.0[i] == rest.0[i - 1]);
            assert(forall|i: int| 1 <= i < s.len() ==> s[i] == tail[i - 1]);
            assert forall|k: int| 0 <= k < plan.1.len() implies exists|i: int|
                0 <= i < s.len() && claimable(s[i], jobs, now) && #[trigger] plan.1[k] == claimed(
                s[i],
                now,
            ) && plan.0[i] == plan.1[k] by {
                if k == 0 {
                    assert(plan.1[0] == claimed(s[0], now));
                    assert(plan.0[0] == plan.1[0]);
                } else {
                    assert(plan.1[k] == rest.1[k - 1]);
                    let i0 = choose|i: int|
                        0 <= i < tail.len() && claimable(tail[i], jobs, now) && #[trigger] rest.1[
                            k - 1
                        ] == claimed(tail[i], now) && rest.0[i] == rest.1[k - 1];
                    assert(s[i0 + 1] == tail[i0]);
                    assert(plan.0[i0 + 1] == rest.0[i0]);
                    assert(plan.1[k] == claimed(s[i0 + 1], now) && plan.0[i0 + 1] == plan.1[k]);
                }
            }
        } else {
            let rest = claim_plan(tail, jobs, now, budget);
            lemma_claim_plan_shape(tail, jobs, now, budget);
            assert(plan.0[0] == s[0]);
            assert(forall|i: int| 1 <= i < s.len() ==> plan.0[i] == rest.0[i - 1]);
            assert(forall|i: int| 1 <= i < s.len() ==> s[i] == tail[i - 1]);
            if budget == 0 {
                assert(plan.1.len() == 0);
            }
            assert forall|k: int| 0 <= k < plan.1.len() implies exists|i: int|
                0 <= i < s.len() && claimable(s[i], jobs, now) && #[trigger] plan.1[k] == claimed(
                s[i],
                now,
            ) && plan.0[i] == plan.1[k] by {
                assert(plan.1[k] == rest.1[k]);
                let i0 = choose|i: int|
                    0 <= i < tail.len() && claimable(tail[i], jobs, now) && #[trigger] rest.1[k]
                        == claimed(tail[i], now) && rest.0[i] == rest.1[k];
                assert(s[i0 + 1] == tail[i0]);
                assert(plan.0[i0 + 1] == rest.0[i0]);
                assert(plan.1[k] == claimed(s[i0 + 1], now) && plan.0[i0 + 1] == plan.1[k]);
            }
        }
    }
}

/// The queue store. It owns all persisted state transitions; workers hold
/// only transient copies of what `pull` hands out.
pub struct QueueStore {
    records: Vec<Maintenance>,
    jobs: Vec<Job>,
    /// Held by the original configuration but never consulted: whether
    /// repeatedly failed records should stop being dispatched is left to an
    /// external retry policy.
    max_attempts: u32,
}

impl QueueStore {
    /// The persisted maintenance records, in storage order.
    pub closed spec fn recs(self) -> Seq<Maintenance> {
        self.records@
    }

    /// The persisted job templates, in storage order.
    pub closed spec fn tpls(self) -> Seq<Job> {
        self.jobs@
    }

    /// The store's invariant: identities are unique and every record is
    /// field-valid. Every operation preserves it.
    pub open spec fn wf(self) -> bool {
        &&& uuids_unique(self.recs())
        &&& job_ids_unique(self.tpls())
        &&& job_keys_unique(self.tpls())
        &&& forall|i: int| 0 <= i < self.recs().len() ==> self.recs()[i].wf()
    }

    /// An empty store.
    pub fn new() -> (res: QueueStore)
        ensures
            res.wf(),
            res.recs() == Seq::<Maintenance>::empty(),
            res.tpls() == Seq::<Job>::empty(),
    {
        QueueStore { records: Vec::new(), jobs: Vec::new(), max_attempts: 5 }
    }

    /// Enqueues a maintenance record: resets its failure counter, forces the
    /// status to `Queued`, and upserts it keyed on the UUID. Re-submitting a
    /// UUID overwrites the prior record rather than duplicating it.
    pub fn push(&mut self, job: Maintenance) -> (res: Result<(), Error>)
        requires
            old(self).wf(),
        ensures
            res is Ok,
            final(self).wf(),
            final(self).tpls() == old(self).tpls(),
            enqueue_post(old(self).recs(), final(self).recs(), job),
    {
        let mut record = job;
        record.failed_attempts = 0;
        record.status = JobStatus::Queued;
        let ghost target = enqueued(job);
        assert(record == target);
        assert(record.uuid@ == job.uuid@);
        let n = self.records.len();
        let mut i: usize = 0;
        while i < n
            invariant
                old(self).wf(),
                n == self.records.len(),
                i <= n,
                *self == *old(self),
                target == enqueued(job),
                record == target,
                record.uuid@ == job.uuid@,
                forall|k: int| 0 <= k < i ==> self.records@[k].uuid@ != job.uuid@,
            decreases n - i,
        {
            if self.records[i].uuid == record.uuid {
                self.records[i] = record;
                proof {
                    let s = self.recs();
                    let prev = old(self).recs();
                    assert(s[i as int] == target);
                    assert(forall|k: int| 0 <= k < s.len() && k != i ==> s[k] == prev[k]);
                    assert(exists|k: int|
                        0 <= k < prev.len() && prev[k].uuid@ == job.uuid@) by {
                        assert(prev[i as int].uuid@ == job.uuid@);
                    }
                    assert forall|k: int|
                        0 <= k < prev.len() && k != i implies prev[k].uuid@ != job.uuid@ by {
                        if k > i {
                            assert(prev[i as int].uuid@ != prev[k].uuid@);
                        }
                    }
                    assert(forall|k: int|
                        0 <= k < prev.len() ==> s[k] == (if prev[k].uuid@ == job.uuid@ {
                            target
                        } else {
                            prev[k]
                        }));
                    assert forall|p: int, q: int| 0 <= p < q < s.len() implies s[p].uuid@
                        != s[q].uuid@ by {
                        assert(prev[p].uuid@ != prev[q].uuid@);
                        assert(s[p].uuid@ == prev[p].uuid@);
                        assert(s[q].uuid@ == prev[q].uuid@);
                    }
                    assert forall|k: int| 0 <= k < s.len() implies s[k].wf() by {
                        if k == i {
                            assert(s[k] == target);
                            assert(target.failed_attempts == 0);
                            assert(target.wf());
                        } else {
                            assert(prev[k].wf());
                            assert(s[k] == prev[k]);
                        }
                    }
                }
                return Ok(());
            }
            i += 1;
        }
        self.records.push(record);
        proof {
            let s = self.recs();
            let prev = old(self).recs();
            assert(s =~= prev.push(target));
        }
        Ok(())
    }

    /// The index of the template with the given id, if one is stored.
    fn find_job_index(&self, id: i32) -> (res: Option<usize>)
        ensures
            match res {
                Some(j) => j < self.tpls().len() && self.tpls()[j as int].id == id,
                None => forall|j: int| 0 <= j < self.tpls().len() ==> self.tpls()[j].id != id,
            },
    {
        let n = self.jobs.len();
        let mut j: usize = 0;
        while j < n
            invariant
                n == self.jobs.len(),
                j <= n,
                forall|k: int| 0 <= k < j ==> self.tpls()[k].id != id,
            decreases n - j,
        {
            if self.jobs[j].id == id {
                return Some(j);
            }
            j += 1;
        }
        None
    }

    /// Atomically claims due work: selects up to `number_of_jobs` (capped at
    /// 100) queued, due records whose template resolves, transitions each to
    /// `Running` in the same step, and returns the claimed records joined
    /// with their templates. A record is returned if and only if it was
    /// transitioned, so no two calls can both obtain the same record.
    pub fn pull_at(&mut self, number_of_jobs: u32, now: i64) -> (res: Result<
        Vec<(Maintenance, Job)>,
        Error,
    >)
        requires
            old(self).wf(),
        ensures
            final(self).wf(),
            final(self).tpls() == old(self).tpls(),
            match res {
                Ok(v) => claim_call_post(*old(self), *final(self), v@, number_of_jobs, now),
                Err(_) => false,
            },
    {
        let limit: u32 = if number_of_jobs > 100 {
            100
        } else {
            number_of_jobs
        };
        let ghost prev = old(self).recs();
        let ghost jobs0 = old(self).tpls();
        let ghost lim = effective_limit(number_of_jobs) as nat;
        let mut out: Vec<(Maintenance, Job)> = Vec::new();
        let n = self.records.len();
        let mut i: usize = 0;
        let mut c: u32 = 0;
        proof {
            assert(prev.take(0) =~= Seq::<Maintenance>::empty());
            let pre0 = claim_plan(prev.take(0), jobs0, now, lim);
            assert(pre0.0 =~= Seq::<Maintenance>::empty());
            assert(pre0.1 =~= Seq::<Maintenance>::empty());
            assert(self.records@ =~= pre0.0 + prev.skip(0));
        }
        while i < n
            invariant
                old(self).wf(),
                prev == old(self).recs(),
                jobs0 == old(self).tpls(),
                lim == effective_limit(number_of_jobs) as nat,
                limit as nat == lim,
                n == prev.len(),
                n == self.records.len(),
                i <= n,
                self.jobs@ == jobs0,
                c <= limit,
                ({
                    let pre = claim_plan(prev.take(i as int), jobs0, now, lim);
                    &&& self.records@ == pre.0 + prev.skip(i as int)
                    &&& out@.len() == pre.1.len()
                    &&& forall|k: int| 0 <= k < out@.len() ==> (#[trigger] out@[k]).0 == pre.1[k]
                    &&& c as nat == pre.1.len()
                }),
                forall|k: int|
                    0 <= k < out@.len() ==> (#[trigger] out@[k]).1.id == out@[k].0.job_id,
                forall|k: int| 0 <= k < out@.len() ==> job_in(jobs0, (#[trigger] out@[k]).1),
                forall|k: int|
                    0 <= k < out@.len() ==> (#[trigger] out@[k]).0.status == JobStatus::Running,
                forall|k: int|
                    0 <= k < self.records@.len() ==> (#[trigger] self.records@[k]).uuid@
                        == prev[k].uuid@ && self.records@[k].wf(),
            decreases n - i,
        {
            proof {
                lemma_claim_plan_shape(prev.take(i as int), jobs0, now, lim);
                assert(claim_plan(prev.take(i as int), jobs0, now, lim).0.len() == i);
                assert(self.records@[i as int] == prev[i as int]);
                assert(prev.take(i as int + 1) =~= prev.take(i as int).push(prev[i as int]));
                lemma_claim_plan_snoc(prev.take(i as int), prev[i as int], jobs0, now, lim);
            }
            let ghost pre = claim_plan(prev.take(i as int), jobs0, now, lim);
            let is_queued = self.records[i].status == JobStatus::Queued;
            let due = match self.records[i].scheduled_for {
                Some(t) => t <= now,
                None => false,
            };
            let mut advanced = false;
            if is_queued && due && c < limit {
                let jid = self.records[i].job_id;
                match self.find_job_index(jid) {
                    Some(j) => {
                        proof {
                            assert(claimable(prev[i as int], jobs0, now)) by {
                                assert(jobs0[j as int].id == prev[i as int].job_id);
                            }
                        }
                        let job = self.jobs[j].clone();
                        let mut rec = self.records[i].clone();
                        rec.status = JobStatus::Running;
                        rec.updated_at = Some(now);
                        proof {
                            assert(rec == claimed(prev[i as int], now));
                        }
                        let rec_out = rec.clone();
                        self.records[i] = rec;
                        let ghost out_pre = out@;
                        let ghost pushed = (rec_out, job);
                        out.push((rec_out, job));
                        c += 1;
                        advanced = true;
                        proof {
                            let post = claim_plan(prev.take(i as int + 1), jobs0, now, lim);
                            assert(post.0 == pre.0.push(claimed(prev[i as int], now)));
                            assert(post.1 == pre.1.push(claimed(prev[i as int], now)));
                            assert(self.records@ =~= post.0 + prev.skip(i as int + 1));
                            assert(out@ == out_pre.push(pushed));
                            assert forall|k: int|
                                0 <= k < out@.len() implies job_in(
                                jobs0,
                                (#[trigger] out@[k]).1,
                            ) by {
                                if k == out_pre.len() {
                                    assert(out@[k] == pushed);
                                    assert(jobs0[j as int] == out@[k].1);
                                } else {
                                    assert(out@[k] == out_pre[k]);
                                }
                            }
                        }
                    },
                    None => {
                        proof {
                            assert(!claimable(prev[i as int], jobs0, now));
                        }
                    },
                }
            }
            if !advanced {
                proof {
                    assert(!(pre.1.len() < lim && claimable(prev[i as int], jobs0, now))) by {
                        if pre.1.len() < lim {
                            assert(c < limit);
                        }
                    }
                    let post = claim_plan(prev.take(i as int + 1), jobs0, now, lim);
                    assert(post.0 == pre.0.push(prev[i as int]));
                    assert(post.1 == pre.1);
                    assert(self.records@ =~= post.0 + prev.skip(i as int + 1));
                }
            }
            i += 1;
        }
        proof {
            assert(prev.take(n as int) =~= prev);
            let plan = claim_plan(prev, jobs0, now, lim);
            assert(self.records@ =~= plan.0);
            assert forall|p: int, q: int| 0 <= p < q < self.records@.len() implies self.records@[p].uuid@
                != self.records@[q].uuid@ by {
                assert(prev[p].uuid@ != prev[q].uuid@);
            }
        }
        Ok(out)
    }

    /// Transitions the named record from `Running` to `Finished`. A record
    /// that is missing or not `Running` is left alone: a lost race is not an
    /// error.
    pub fn finish_at(&mut self, job_id: &String, now: i64) -> (res: Result<(), Error>)
        requires
            old(self).wf(),
        ensures
            res is Ok,
            final(self).wf(),
            final(self).tpls() == old(self).tpls(),
            finish_post(old(self).recs(), final(self).recs(), job_id@, now),
    {
        let n = self.records.len();
        let mut i: usize = 0;
        while i < n
            invariant
                old(self).wf(),
                n == self.records.len(),
                i <= n,
                *self == *old(self),
                forall|k: int| 0 <= k < i ==> self.records@[k].uuid@ != job_id@,
            decreases n - i,
        {
            if self.records[i].uuid == *job_id {
                if self.records[i].status == JobStatus::Running {
                    let mut rec = self.records[i].clone();
                    rec.status = JobStatus::Finished;
                    rec.updated_at = Some(now);
                    proof {
                        assert(rec == finished(old(self).recs()[i as int], now));
                    }
                    self.records[i] = rec;
                }
                proof {
                    let prev = old(self).recs();
                    let s = self.recs();
                    assert forall|k: int|
                        0 <= k < prev.len() && k != i implies prev[k].uuid@ != job_id@ by {
                        if k > i {
                            assert(prev[i as int].uuid@ != prev[k].uuid@);
                        }
                    }
                    assert forall|p: int, q: int| 0 <= p < q < s.len() implies s[p].uuid@
                        != s[q].uuid@ by {
                        assert(prev[p].uuid@ != prev[q].uuid@);
                        assert(s[p].uuid@ == prev[p].uuid@);
                        assert(s[q].uuid@ == prev[q].uuid@);
                    }
                    assert forall|k: int| 0 <= k < s.len() implies s[k].wf() by {
                        assert(prev[k].wf());
                    }
                }
                return Ok(());
            }
            i += 1;
        }
        Ok(())
    }

    /// Transitions the named record from `Running` to `Failed` and counts
    /// the failure. A record that is missing or not `Running` is left alone.
    pub fn fail_at(&mut self, job_id: &String, now: i64) -> (res: Result<(), Error>)
        requires
            old(self).wf(),
        ensures
            res is Ok,
            final(self).wf(),
            final(self).tpls() == old(self).tpls(),
            fail_post(old(self).recs(), final(self).recs(), job_id@, now),
    {
        let n = self.records.len();
        let mut i: usize = 0;
        while i < n
            invariant
                old(self).wf(),
                n == self.records.len(),
                i <= n,
                *self == *old(self),
                forall|k: int| 0 <= k < i ==> self.records@[k].uuid@ != job_id@,
            decreases n - i,
        {
            if self.records[i].uuid == *job_id {
                if self.records[i].status == JobStatus::Running {
                    let mut rec = self.records[i].clone();
                    rec.status = JobStatus::Failed;
                    rec.updated_at = Some(now);
                    if rec.failed_attempts < i32::MAX {
                        rec.failed_attempts = rec.failed_attempts + 1;
                    }
                    proof {
                        assert(rec == failed_once(old(self).recs()[i as int], now));
                    }
                    self.records[i] = rec;
                }
                proof {
                    let prev = old(self).recs();
                    let s = self.recs();
                    assert forall|k: int|
                        0 <= k < prev.len() && k != i implies prev[k].uuid@ != job_id@ by {
                        if k > i {
                            assert(prev[i as int].uuid@ != prev[k].uuid@);
                        }
                    }
                    assert forall|p: int, q: int| 0 <= p < q < s.len() implies s[p].uuid@
                        != s[q].uuid@ by {
                        assert(prev[p].uuid@ != prev[q].uuid@);
                        assert(s[p].uuid@ == prev[p].uuid@);
                        assert(s[q].uuid@ == prev[q].uuid@);
                    }
                    assert forall|k: int| 0 <= k < s.len() implies s[k].wf() by {
                        assert(prev[k].wf());
                    }
                }
                return Ok(());
            }
            i += 1;
        }
        Ok(())
    }

    /// Claims due work at the current instant: `pull_at` against the wall
    /// clock.
    pub fn pull(&mut self, number_of_jobs: u32) -> (res: Result<Vec<(Maintenance, Job)>, Error>)
        requires
            old(self).wf(),
        ensures
            final(self).wf(),
            final(self).tpls() == old(self).tpls(),
            match res {
                Ok(v) => exists|t: i64|
                    claim_call_post(*old(self), *final(self), v@, number_of_jobs, t),
                Err(_) => false,
            },
    {
        let t = crate::clock::now_seconds();
        self.pull_at(number_of_jobs, t)
    }

    /// Marks the named record finished at the current instant: `finish_at`
    /// against the wall clock.
    pub fn finish_job(&mut self, job_id: String) -> (res: Result<(), Error>)
        requires
            old(self).wf(),
        ensures
            res is Ok,
            final(self).wf(),
            final(self).tpls() == old(self).tpls(),
            exists|t: i64| finish_post(old(self).recs(), final(self).recs(), job_id@, t),
    {
        let t = crate::clock::now_seconds();
        self.finish_at(&job_id, t)
    }

    /// Marks the named record failed at the current instant: `fail_at`
    /// against the wall clock.
    pub fn fail_job(&mut self, job_id: String) -> (res: Result<(), Error>)
        requires
            old(self).wf(),
        ensures
            res is Ok,
            final(self).wf(),
            final(self).tpls() == old(self).tpls(),
            exists|t: i64| fail_post(old(self).recs(), final(self).recs(), job_id@, t),
    {
        let t = crate::clock::now_seconds();
        self.fail_at(&job_id, t)
    }

    /// A copy of every stored record, in storage order.
    pub fn all_records(&self) -> (res: Vec<Maintenance>)
        ensures
            res@ == self.recs(),
    {
        let n = self.records.len();
        let mut out: Vec<Maintenance> = Vec::new();
        let mut i: usize = 0;
        while i < n
            invariant
                n == self.records.len(),
                i <= n,
                out@ == self.recs().take(i as int),
            decreases n - i,
        {
            out.push(self.records[i].clone());
            proof {
                assert(out@ =~= self.recs().take(i as int + 1));
            }
            i += 1;
        }
        proof {
            assert(self.recs().take(n as int) =~= self.recs());
        }
        out
    }

    /// A copy of the record with the given UUID, if one is stored.
    pub fn find_by_uuid(&self, uuid: &String) -> (res: Option<Maintenance>)
        ensures
            match res {
                Some(r) => r.uuid@ == uuid@ && exists|i: int|
                    0 <= i < self.recs().len() && self.recs()[i] == r,
                None => forall|i: int| 0 <= i < self.recs().len() ==> self.recs()[i].uuid@ != uuid@,
            },
    {
        let n = self.records.len();
        let mut i: usize = 0;
        while i < n
            invariant
                n == self.records.len(),
                i <= n,
                forall|k: int| 0 <= k < i ==> self.recs()[k].uuid@ != uuid@,
            decreases n - i,
        {
            if self.records[i].uuid == *uuid {
                let found = self.records[i].clone();
                proof {
                    assert(exists|k: int| 0 <= k < self.recs().len() && self.recs()[k] == found)
                        by {
                        assert(self.recs()[i as int] == found);
                    }
                }
                return Some(found);
            }
            i += 1;
        }
        None
    }

    /// Removes the named record. Deleting a UUID that is not stored succeeds
    /// silently: the operation is idempotent.
    pub fn delete_job(&mut self, job_id: String) -> (res: Result<(), Error>)
        requires
            old(self).wf(),
        ensures
            res is Ok,
            final(self).wf(),
            final(self).tpls() == old(self).tpls(),
            delete_post(old(self).recs(), final(self).recs(), job_id@),
    {
        let n = self.records.len();
        let mut i: usize = 0;
        while i < n
            invariant
                old(self).wf(),
                n == self.records.len(),
                i <= n,
                *self == *old(self),
                forall|k: int| 0 <= k < i ==> self.records@[k].uuid@ != job_id@,
            decreases n - i,
        {
            if self.records[i].uuid == job_id {
                self.records.remove(i);
                proof {
                    let prev = old(self).recs();
                    let s = self.recs();
                    assert(s == prev.remove(i as int));
                    assert(forall|k: int| 0 <= k < i ==> s[k] == prev[k]);
                    assert(forall|k: int| i <= k < s.len() ==> s[k] == prev[k + 1]);
                    assert forall|p: int, q: int| 0 <= p < q < s.len() implies s[p].uuid@
                        != s[q].uuid@ by {
                        let p0: int = if p < i { p } else { p + 1 };
                        let q0: int = if q < i { q } else { q + 1 };
                        assert(s[p] == prev[p0]);
                        assert(s[q] == prev[q0]);
                        assert(prev[p0].uuid@ != prev[q0].uuid@);
                    }
                    assert forall|k: int| 0 <= k < s.len() implies s[k].wf() by {
                        let k0: int = if k < i { k } else { k + 1 };
                        assert(s[k] == prev[k0]);
                        assert(prev[k0].wf());
                    }
                    assert(exists|k: int|
                        0 <= k < prev.len() && prev[k].uuid@ == job_id@ && s == prev.remove(k)) by {
                        assert(prev[i as int].uuid@ == job_id@ && s == prev.remove(i as int));
                    }
                }
                return Ok(());
            }
            i += 1;
        }
        Ok(())
    }

    /// The index of the template sharing the upsert key (name, image, tag)
    /// with `job`, if one is stored.
    fn find_job_key_index(&self, job: &Job) -> (res: Option<usize>)
        ensures
            match res {
                Some(i) => i < self.tpls().len() && same_job_key(self.tpls()[i as int], *job),
                None => forall|k: int|
                    0 <= k < self.tpls().len() ==> !same_job_key(self.tpls()[k], *job),
            },
    {
        let n = self.jobs.len();
        let mut i: usize = 0;
        while i < n
            invariant
                n == self.jobs.len(),
                i <= n,
                forall|k: int| 0 <= k < i ==> !same_job_key(self.tpls()[k], *job),
            decreases n - i,
        {
            if self.jobs[i].name == job.name && self.jobs[i].docker_image == job.docker_image
                && self.jobs[i].docker_image_tag == job.docker_image_tag {
                return Some(i);
            }
            i += 1;
        }
        None
    }

    /// Upserts a job template keyed on (name, image, tag): re-submitting the
    /// same key updates the stored template's fields rather than duplicating
    /// it. Claiming its id for a different key fails the storage constraint.
    pub fn insert_job(&mut self, job: Job) -> (res: Result<Job, Error>)
        requires
            old(self).wf(),
        ensures
            final(self).wf(),
            final(self).recs() == old(self).recs(),
            job_upsert_post(old(self).tpls(), final(self).tpls(), job, res is Ok),
            (res matches Ok(j) ==> j == job),
            (res matches Err(e) ==> e is Database),
    {
        let ghost prev = old(self).tpls();
        match self.find_job_key_index(&job) {
            Some(i) => {
                match self.find_job_index(job.id) {
                    Some(jdx) => {
                        if jdx != i {
                            proof {
                                assert(!same_job_key(prev[jdx as int], job)) by {
                                    if jdx < i {
                                        assert(!same_job_key(prev[jdx as int], prev[i as int]));
                                    } else {
                                        assert(!same_job_key(prev[i as int], prev[jdx as int]));
                                    }
                                }
                                assert(exists|k: int|
                                    0 <= k < prev.len() && prev[k].id == job.id && !same_job_key(
                                        prev[k],
                                        job,
                                    )) by {
                                    assert(prev[jdx as int].id == job.id && !same_job_key(
                                        prev[jdx as int],
                                        job,
                                    ));
                                }
                            }
                            return Err(
                                Error::Database(
                                    "job id already used by another template".to_owned(),
                                ),
                            );
                        }
                    },
                    None => {},
                }
                proof {
                    assert forall|k: int|
                        0 <= k < prev.len() && prev[k].id == job.id implies same_job_key(
                        prev[k],
                        job,
                    ) by {
                        if k < i {
                            assert(prev[k].id != prev[i as int].id);
                        } else if k > i {
                            assert(prev[i as int].id != prev[k].id);
                        }
                    }
                }
                let stored = job.clone();
                self.jobs[i] = stored;
                proof {
                    let next = self.tpls();
                    assert(next == prev.update(i as int, job));
                    assert(exists|k: int|
                        0 <= k < prev.len() && same_job_key(prev[k], job) && next == prev.update(
                            k,
                            job,
                        )) by {
                        assert(same_job_key(prev[i as int], job) && next == prev.update(
                            i as int,
                            job,
                        ));
                    }
                    assert forall|p: int, q: int|
                        0 <= p < q < next.len() implies !same_job_key(next[p], next[q]) && next[p].id
                        != next[q].id by {
                        if p != i && q != i {
                            assert(next[p] == prev[p] && next[q] == prev[q]);
                        } else if p == i {
                            assert(next[q] == prev[q]);
                            assert(!same_job_key(prev[i as int], prev[q]));
                            assert(prev[q].id != job.id || same_job_key(prev[q], job));
                        } else {
                            assert(next[p] == prev[p]);
                            assert(!same_job_key(prev[p], prev[i as int]));
                            assert(prev[p].id != job.id || same_job_key(prev[p], job));
                        }
                    }
                }
                Ok(job)
            },
            None => {
                match self.find_job_index(job.id) {
                    Some(_) => Err(
                        Error::Database("job id already used by another template".to_owned()),
                    ),
                    None => {
                        let stored = job.clone();
                        self.jobs.push(stored);
                        proof {
                            let next = self.tpls();
                            assert(next =~= prev.push(job));
                        }
                        Ok(job)
                    },
                }
            },
        }
    }

    /// Removes every record. Clearing an already empty queue succeeds: the
    /// operation is idempotent.
    pub fn clear(&mut self) -> (res: Result<(), Error>)
        requires
            old(self).wf(),
        ensures
            res is Ok,
            final(self).wf(),
            final(self).tpls() == old(self).tpls(),
            final(self).recs() == Seq::<Maintenance>::empty(),
    {
        self.records.clear();
        proof {
            assert(self.recs() =~= Seq::<Maintenance>::empty());
        }
        Ok(())
    }
}

/// The finished form of a record: `Running -> Finished` with its timestamp
/// updated; the failure counter and every other field are kept.
pub open spec fn finished(r: Maintenance, now: i64) -> Maintenance {
    Maintenance {
        id: r.id,
        uuid: r.uuid,
        name: r.name,
        created_at: r.created_at,
        updated_at: Some(now),
        failed_attempts: r.failed_attempts,
        status: JobStatus::Finished,
        scheduled_for: r.scheduled_for,
        downtime_window_start: r.downtime_window_start,
        downtime_window_end: r.downtime_window_end,
        job_id: r.job_id,
    }
}

/// The failed form of a record: `Running -> Failed` with its timestamp
/// updated and the failure counter incremented by exactly one (it stays put
/// only at its representable maximum).
pub open spec fn failed_once(r: Maintenance, now: i64) -> Maintenance {
    Maintenance {
        id: r.id,
        uuid: r.uuid,
        name: r.name,
        created_at: r.created_at,
        updated_at: Some(now),
        failed_attempts: if r.failed_attempts < i32::MAX {
            (r.failed_attempts + 1) as i32
        } else {
            r.failed_attempts
        },
        status: JobStatus::Failed,
        scheduled_for: r.scheduled_for,
        downtime_window_start: r.downtime_window_start,
        downtime_window_end: r.downtime_window_end,
        job_id: r.job_id,
    }
}

/// What `mark finished` does: exactly the named record transitions, and
/// only if it is currently `Running`; anything else is a silent no-op (a
/// lost race, not an error).
pub open spec fn finish_post(
    prev: Seq<Maintenance>,
    next: Seq<Maintenance>,
    uuid: Seq<char>,
    now: i64,
) -> bool {
    &&& next.len() == prev.len()
    &&& forall|i: int|
        0 <= i < prev.len() ==> next[i] == (if prev[i].uuid@ == uuid && prev[i].status
            == JobStatus::Running {
            finished(prev[i], now)
        } else {
            prev[i]
        })
}

/// What `mark failed` does: exactly the named record transitions (and its
/// failure counter is incremented), and only if it is currently `Running`;
/// anything else is a silent no-op.
pub open spec fn fail_post(
    prev: Seq<Maintenance>,
    next: Seq<Maintenance>,
    uuid: Seq<char>,
    now: i64,
) -> bool {
    &&& next.len() == prev.len()
    &&& forall|i: int|
        0 <= i < prev.len() ==> next[i] == (if prev[i].uuid@ == uuid && prev[i].status
            == JobStatus::Running {
            failed_once(prev[i], now)
        } else {
            prev[i]
        })
}

/// What `delete` does: the named record is removed if present; deleting an
/// absent UUID succeeds and changes nothing.
pub open spec fn delete_post(prev: Seq<Maintenance>, next: Seq<Maintenance>, uuid: Seq<char>) -> bool {
    if exists|i: int| 0 <= i < prev.len() && prev[i].uuid@ == uuid {
        exists|i: int| 0 <= i < prev.len() && prev[i].uuid@ == uuid && next == prev.remove(i)
    } else {
        next == prev
    }
}

/// The template `j` is one of the stored templates `tpls`.
pub open spec fn job_in(tpls: Seq<Job>, j: Job) -> bool {
    exists|i: int| 0 <= i < tpls.len() && tpls[i] == j
}

/// What the template upsert does, keyed on (name, image, tag): re-submitting
/// an existing key updates that template's fields in place; a fresh key is
/// appended; a template id already used by a different key is a constraint
/// violation and changes nothing.
pub open spec fn job_upsert_post(prev: Seq<Job>, next: Seq<Job>, job: Job, ok: bool) -> bool {
    if exists|i: int| 0 <= i < prev.len() && same_job_key(prev[i], job) {
        if exists|j: int|
            0 <= j < prev.len() && prev[j].id == job.id && !same_job_key(prev[j], job) {
            !ok && next == prev
        } else {
            ok && exists|i: int|
                0 <= i < prev.len() && same_job_key(prev[i], job) && next == prev.update(i, job)
        }
    } else {
        if exists|j: int| 0 <= j < prev.len() && prev[j].id == job.id {
            !ok && next == prev
        } else {
            ok && next == prev.push(job)
        }
    }
}

/// What one claim call with a limit does to the whole store at instant
/// `now`, and what it returns: the claimed records joined with their
/// templates, each transitioned to `Running` in the same step.
pub open spec fn claim_call_post(
    prev: QueueStore,
    next: QueueStore,
    v: Seq<(Maintenance, Job)>,
    number_of_jobs: u32,
    now: i64,
) -> bool {
    let plan = claim_plan(prev.recs(), prev.tpls(), now, effective_limit(number_of_jobs) as nat);
    &&& next.recs() == plan.0
    &&& v.len() == plan.1.len()
    &&& forall|k: int| 0 <= k < v.len() ==> (#[trigger] v[k]).0 == plan.1[k]
    &&& forall|k: int| 0 <= k < v.len() ==> (#[trigger] v[k]).1.id == v[k].0.job_id
    &&& forall|k: int| 0 <= k < v.len() ==> job_in(prev.tpls(), (#[trigger] v[k]).1)
    &&& forall|k: int| 0 <= k < v.len() ==> (#[trigger] v[k]).0.status == JobStatus::Running
}

/// The per-call cap the store enforces on how many records one claim may
/// take.
pub open spec fn effective_limit(n: u32) -> u32 {
    if n > 100 {
        100
    } else {
        n
    }
}

/// At-most-one-claim: over one claim and any later claim against the
/// resulting state, no record is handed out twice — a record the first call
/// claimed is `Running` afterwards and so not claimable again, whatever the
/// instant, the budget or the stored templates of the second call.
pub proof fn lemma_claim_at_most_once(
    s: Seq<Maintenance>,
    jobs: Seq<Job>,
    now1: i64,
    b1: nat,
    jobs2: Seq<Job>,
    now2: i64,
    b2: nat,
)
    requires
        uuids_unique(s),
    ensures
        ({
            let first = claim_plan(s, jobs, now1, b1);
            let second = claim_plan(first.0, jobs2, now2, b2);
            forall|k1: int, k2: int|
                0 <= k1 < first.1.len() && 0 <= k2 < second.1.len() ==> (
                #[trigger] first.1[k1]).uuid@ != (#[trigger] second.1[k2]).uuid@
        }),
{
    let first = claim_plan(s, jobs, now1, b1);
    let second = claim_plan(first.0, jobs2, now2, b2);
    lemma_claim_plan_shape(s, jobs, now1, b1);
    lemma_claim_plan_shape(first.0, jobs2, now2, b2);
    assert(forall|i: int| 0 <= i < s.len() ==> (#[trigger] first.0[i]).uuid@ == s[i].uuid@);
    assert forall|k1: int, k2: int|
        0 <= k1 < first.1.len() && 0 <= k2 < second.1.len() implies (
    #[trigger] first.1[k1]).uuid@ != (#[trigger] second.1[k2]).uuid@ by {
        let i1 = choose|i: int|
            0 <= i < s.len() && claimable(s[i], jobs, now1) && #[trigger] first.1[k1] == claimed(
                s[i],
                now1,
            ) && first.0[i] == first.1[k1];
        let i2 = choose|i: int|
            0 <= i < first.0.len() && claimable(first.0[i], jobs2, now2) && #[trigger] second.1[k2]
                == claimed(first.0[i], now2) && second.0[i] == second.1[k2];
        assert(first.0[i1].status == JobStatus::Running);
        assert(first.0[i2].status == JobStatus::Queued);
        assert(i1 != i2);
        assert(first.1[k1].uuid@ == s[i1].uuid@);
        assert(second.1[k2].uuid@ == first.0[i2].uuid@ && first.0[i2].uuid@ == s[i2].uuid@);
        if i1 < i2 {
            assert(s[i1].uuid@ != s[i2].uuid@);
        } else {
            assert(s[i2].uuid@ != s[i1].uuid@);
        }
    }
}

/// The other half of at-most-one-claim: within one claim call, no record is
/// handed out twice — the claimed records' UUIDs are pairwise distinct.
pub proof fn lemma_claim_output_distinct(
    s: Seq<Maintenance>,
    jobs: Seq<Job>,
    now: i64,
    budget: nat,
)
    requires
        uuids_unique(s),
    ensures
        ({
            let plan = claim_plan(s, jobs, now, budget);
            forall|k1: int, k2: int|
                0 <= k1 < k2 < plan.1.len() ==> (#[trigger] plan.1[k1]).uuid@ != (
                #[trigger] plan.1[k2]).uuid@
        }),
    decreases s.len(),
{
    let plan = claim_plan(s, jobs, now, budget);
    if s.len() == 0 {
    } else {
        let tail = s.skip(1);
        assert(uuids_unique(tail)) by {
            assert forall|i: int, j: int| 0 <= i < j < tail.len() implies tail[i].uuid@
                != tail[j].uuid@ by {
                assert(tail[i] == s[i + 1]);
                assert(tail[j] == s[j + 1]);
                assert(s[i + 1].uuid@ != s[j + 1].uuid@);
            }
        }
        if budget > 0 && claimable(s[0], jobs, now) {
            let b2 = (budget - 1) as nat;
            lemma_claim_output_distinct(tail, jobs, now, b2);
            lemma_claim_plan_shape(tail, jobs, now, b2);
            let rest = claim_plan(tail, jobs, now, b2);
            assert forall|k1: int, k2: int|
                0 <= k1 < k2 < plan.1.len() implies (#[trigger] plan.1[k1]).uuid@ != (
            #[trigger] plan.1[k2]).uuid@ by {
                if k1 == 0 {
                    assert(plan.1[k2] == rest.1[k2 - 1]);
                    let i0 = choose|i: int|
                        0 <= i < tail.len() && claimable(tail[i], jobs, now) && #[trigger] rest.1[
                            k2 - 1
                        ] == claimed(tail[i], now) && rest.0[i] == rest.1[k2 - 1];
                    assert(rest.1[k2 - 1].uuid@ == tail[i0].uuid@);
                    assert(tail[i0] == s[i0 + 1]);
                    assert(s[0].uuid@ != s[i0 + 1].uuid@);
                    assert(plan.1[0] == claimed(s[0], now));
                } else {
                    assert(plan.1[k1] == rest.1[k1 - 1]);
                    assert(plan.1[k2] == rest.1[k2 - 1]);
                }
            }
        } else {
            lemma_claim_output_distinct(tail, jobs, now, budget);
            assert(plan.1 == claim_plan(tail, jobs, now, budget).1);
        }
    }
}

/// Status monotonicity: no queue transition moves a record out of the
/// terminal `Finished` status. A claim leaves it alone (only `Queued`
/// records are claimable), and so do marking finished and marking failed
/// (only `Running` records transition).
pub proof fn lemma_status_monotonic(
    s: Seq<Maintenance>,
    jobs: Seq<Job>,
    now: i64,
    budget: nat,
    fin: Seq<Maintenance>,
    fl: Seq<Maintenance>,
    uuid: Seq<char>,
    now2: i64,
)
    requires
        finish_post(s, fin, uuid, now2),
        fail_post(s, fl, uuid, now2),
    ensures
        forall|i: int|
            0 <= i < s.len() && s[i].status.is_terminal() ==> (#[trigger] claim_plan(
                s,
                jobs,
                now,
                budget,
            ).0[i]) == s[i],
        forall|i: int| 0 <= i < s.len() && s[i].status.is_terminal() ==> #[trigger] fin[i] == s[i],
        forall|i: int| 0 <= i < s.len() && s[i].status.is_terminal() ==> #[trigger] fl[i] == s[i],
{
    lemma_claim_plan_shape(s, jobs, now, budget);
    let plan = claim_plan(s, jobs, now, budget);
    assert forall|i: int|
        0 <= i < s.len() && s[i].status.is_terminal() implies (#[trigger] plan.0[i]) == s[i] by {
        assert(!claimable(s[i], jobs, now));
    }
}

/// Failure counting: the counter moves only where the state machine says.
/// A `Running -> Failed` transition adds exactly one (it stays put only at
/// the representable maximum); a claim and a finish never change any
/// counter; enqueue resets exactly the enqueued record's counter to zero.
pub proof fn lemma_failure_counting(
    s: Seq<Maintenance>,
    jobs: Seq<Job>,
    now: i64,
    budget: nat,
    uuid: Seq<char>,
    fin: Seq<Maintenance>,
    fl: Seq<Maintenance>,
    enq: Seq<Maintenance>,
    job: Maintenance,
)
    requires
        finish_post(s, fin, uuid, now),
        fail_post(s, fl, uuid, now),
        enqueue_post(s, enq, job),
    ensures
        forall|i: int|
            0 <= i < s.len() ==> (#[trigger] claim_plan(s, jobs, now, budget).0[i]).failed_attempts
                == s[i].failed_attempts,
        forall|i: int| 0 <= i < s.len() ==> (#[trigger] fin[i]).failed_attempts
            == s[i].failed_attempts,
        forall|i: int|
            0 <= i < s.len() ==> (#[trigger] fl[i]).failed_attempts == (if s[i].uuid@ == uuid
                && s[i].status == JobStatus::Running && s[i].failed_attempts < i32::MAX {
                s[i].failed_attempts + 1
            } else {
                s[i].failed_attempts as int
            }),
        enqueued(job).failed_attempts == 0,
        forall|i: int|
            0 <= i < s.len() && s[i].uuid@ != job.uuid@ ==> (#[trigger] enq[i]).failed_attempts
                == s[i].failed_attempts,
        forall|i: int|
            0 <= i < s.len() && s[i].uuid@ == job.uuid@ ==> (#[trigger] enq[i]).failed_attempts
                == 0,
{
    lemma_claim_plan_shape(s, jobs, now, budget);
    let plan = claim_plan(s, jobs, now, budget);
    assert forall|i: int|
        0 <= i < s.len() implies (#[trigger] plan.0[i]).failed_attempts
        == s[i].failed_attempts by {
        assert(plan.0[i] == s[i] || plan.0[i] == claimed(s[i], now));
    }
    if exists|i: int| 0 <= i < s.len() && s[i].uuid@ == job.uuid@ {
    } else {
        assert(forall|i: int| 0 <= i < s.len() ==> enq[i] == s.push(enqueued(job))[i]);
        assert(forall|i: int| 0 <= i < s.len() ==> s.push(enqueued(job))[i] == s[i]);
    }
}

} // verus!
