//! The queue of code reviews put off to the worker. A job is leased to one
//! worker at a time; a lease that runs out returns the job to the queue.
use vstd::prelude::*;

use crate::text::{before, text_before, text_eq};

verus! {

/// A job as a worker sees it. `status` is `pending`, `running`, `done` or
/// `failed`.
#[derive(Debug)]
pub struct ReviewJob {
    pub id: String,
    pub request_id: String,
    pub project_id: String,
    pub target: String,
    pub status: String,
    pub attempts: i64,
}

/// A row of the queue.
#[derive(Debug)]
pub struct JobRow {
    pub job: ReviewJob,
    pub lease_until: Option<String>,
    pub error: Option<String>,
    pub created_at: String,
    pub updated_at: String,
}

/// The queue.
#[derive(Debug)]
pub struct ReviewJobs {
    rows: Vec<JobRow>,
}

/// Seconds a worker may hold a job.
pub const REVIEW_LEASE_SECS: i64 = 600;

/// Attempts before a promotion fails closed.
pub const REVIEW_MAX_ATTEMPTS: i64 = 3;

impl View for ReviewJobs {
    type V = Seq<JobRow>;

    closed spec fn view(&self) -> Seq<JobRow> {
        self.rows@
    }
}

/// A job that waits for a worker.
pub open spec fn pending(r: JobRow) -> bool {
    r.job.status@ == "pending"@
}

/// A job whose lease ran out.
pub open spec fn stale(r: JobRow, now: Seq<char>) -> bool {
    r.job.status@ == "running"@ && (r.lease_until matches Some(l) && before(l@, now))
}

/// The job a worker takes next: of those that wait the one created first, and
/// of those created together the one queued first.
pub open spec fn is_next(rows: Seq<JobRow>, i: int) -> bool {
    &&& 0 <= i < rows.len()
    &&& pending(rows[i])
    &&& forall|j: int|
        0 <= j < rows.len() && pending(#[trigger] rows[j]) ==> !before(
            rows[j].created_at@,
            rows[i].created_at@,
        )
    &&& forall|j: int|
        0 <= j < i && pending(#[trigger] rows[j]) ==> rows[j].created_at@ != rows[i].created_at@
}

/// Two rows about the same job that differ in its progress only.
pub open spec fn same_job(a: JobRow, b: JobRow) -> bool {
    &&& a.job.id == b.job.id
    &&& a.job.request_id == b.job.request_id
    &&& a.job.project_id == b.job.project_id
    &&& a.job.target == b.job.target
    &&& a.created_at == b.created_at
}

/// A row after it was leased: running, one attempt more, held until the lease
/// runs out.
pub open spec fn leased(a: JobRow, b: JobRow, lease: Seq<char>, now: Seq<char>) -> bool {
    &&& same_job(a, b)
    &&& b.job.status@ == "running"@
    &&& b.job.attempts == a.job.attempts + 1
    &&& b.lease_until matches Some(l) && l@ == lease
    &&& b.error == a.error
    &&& b.updated_at@ == now
}

/// A row after it was released into the state `status`.
pub open spec fn released(a: JobRow, b: JobRow, status: Seq<char>, now: Seq<char>) -> bool {
    &&& same_job(a, b)
    &&& b.job.status@ == status
    &&& b.job.attempts == a.job.attempts
    &&& b.lease_until is None
    &&& b.updated_at@ == now
}

/// The state a failed attempt leaves a job in.
pub open spec fn after_failure(attempts: i64, max_attempts: i64) -> Seq<char> {
    if attempts >= max_attempts {
        "failed"@
    } else {
        "pending"@
    }
}

/// How many leases ran out.
pub open spec fn stale_count(rows: Seq<JobRow>, now: Seq<char>) -> nat
    decreases rows.len(),
{
    if rows.len() == 0 {
        0
    } else {
        stale_count(rows.drop_last(), now) + if stale(rows.last(), now) {
            1nat
        } else {
            0nat
        }
    }
}

/// The newest job of a request.
pub open spec fn is_latest(rows: Seq<JobRow>, request_id: Seq<char>, i: int) -> bool {
    &&& 0 <= i < rows.len()
    &&& rows[i].job.request_id@ == request_id
    &&& forall|j: int|
        0 <= j < rows.len() && (#[trigger] rows[j]).job.request_id@ == request_id ==> !before(
            rows[i].created_at@,
            rows[j].created_at@,
        )
}

fn copy_job(j: &ReviewJob) -> (r: ReviewJob)
    ensures
        r == *j,
{
    ReviewJob {
        id: j.id.clone(),
        request_id: j.request_id.clone(),
        project_id: j.project_id.clone(),
        target: j.target.clone(),
        status: j.status.clone(),
        attempts: j.attempts,
    }
}

impl ReviewJobs {
    /// An empty queue.
    pub fn new() -> (r: ReviewJobs)
        ensures
            r@ == Seq::<JobRow>::empty(),
    {
        ReviewJobs { rows: Vec::new() }
    }

    /// A queue of the given rows.
    pub fn from_rows(rows: Vec<JobRow>) -> (r: ReviewJobs)
        ensures
            r@ == rows@,
    {
        ReviewJobs { rows }
    }

    /// The rows of the queue, in order.
    pub fn rows(&self) -> (r: &Vec<JobRow>)
        ensures
            r@ == self@,
    {
        &self.rows
    }

    /// Queues a review: a new row at the end, waiting, without an attempt.
    pub fn enqueue(
        &mut self,
        id: &str,
        request_id: &str,
        project_id: &str,
        target: &str,
        now: &str,
    )
        ensures
            final(self)@.len() == old(self)@.len() + 1,
            final(self)@.drop_last() == old(self)@,
            ({
                let r = final(self)@.last();
                &&& r.job.id@ == id@
                &&& r.job.request_id@ == request_id@
                &&& r.job.project_id@ == project_id@
                &&& r.job.target@ == target@
                &&& pending(r)
                &&& r.job.attempts == 0
                &&& r.lease_until is None
                &&& r.error is None
                &&& r.created_at@ == now@
                &&& r.updated_at@ == now@
            }),
    {
        let row = JobRow {
            job: ReviewJob {
                id: id.to_owned(),
                request_id: request_id.to_owned(),
                project_id: project_id.to_owned(),
                target: target.to_owned(),
                status: "pending".to_owned(),
                attempts: 0,
            },
            lease_until: None,
            error: None,
            created_at: now.to_owned(),
            updated_at: now.to_owned(),
        };
        let ghost start = self.rows@;
        self.rows.push(row);
        assert(self.rows@.drop_last() =~= start);
    }

    /// Returns the jobs whose lease ran out to the queue and says how many.
    pub fn reclaim_stale(&mut self, now: &str) -> (r: usize)
        ensures
            final(self)@.len() == old(self)@.len(),
            forall|i: int|
                0 <= i < old(self)@.len() ==> if stale(old(self)@[i], now@) {
                    released(old(self)@[i], #[trigger] final(self)@[i], "pending"@, now@)
                        && final(self)@[i].error == old(self)@[i].error
                } else {
                    final(self)@[i] == old(self)@[i]
                },
            r == stale_count(old(self)@, now@),
    {
        let ghost start = self.rows@;
        let mut count: usize = 0;
        let mut i: usize = 0;
        while i < self.rows.len()
            invariant
                i <= self.rows@.len(),
                self.rows@.len() == start.len(),
                count <= i,
                count == stale_count(start.take(i as int), now@),
                forall|k: int|
                    0 <= k < i ==> if stale(start[k], now@) {
                        released(start[k], #[trigger] self.rows@[k], "pending"@, now@)
                            && self.rows@[k].error == start[k].error
                    } else {
                        self.rows@[k] == start[k]
                    },
                forall|k: int| i <= k < start.len() ==> #[trigger] self.rows@[k] == start[k],
            decreases self.rows.len() - i,
        {
            assert(start.take(i + 1).drop_last() =~= start.take(i as int));
            assert(start.take(i + 1).last() == start[i as int]);
            assert(self.rows@[i as int] == start[i as int]);
            let expired = match &self.rows[i].lease_until {
                Some(l) => text_before(l.as_str(), now),
                None => false,
            };
            if expired && text_eq(self.rows[i].job.status.as_str(), "running") {
                self.rows[i].job.status = "pending".to_owned();
                self.rows[i].lease_until = None;
                self.rows[i].updated_at = now.to_owned();
                count = count + 1;
            }
            i = i + 1;
        }
        assert(start.take(start.len() as int) =~= start);
        count
    }

    fn next_index(&self) -> (r: Option<usize>)
        ensures
            match r {
                Some(i) => is_next(self@, i as int),
                None => forall|j: int| 0 <= j < self@.len() ==> !pending(#[trigger] self@[j]),
            },
    {
        let mut best: Option<usize> = None;
        let mut i: usize = 0;
        while i < self.rows.len()
            invariant
                i <= self.rows@.len(),
                match best {
                    Some(b) => b < i && is_next(self.rows@.take(i as int), b as int),
                    None => forall|j: int| 0 <= j < i ==> !pending(#[trigger] self.rows@[j]),
                },
            decreases self.rows.len() - i,
        {
            let ghost now_seen = self.rows@.take(i as int);
            let ghost then_seen = self.rows@.take(i + 1);
            assert(forall|j: int| 0 <= j < i ==> #[trigger] now_seen[j] == then_seen[j]);
            assert(then_seen[i as int] == self.rows@[i as int]);
            if text_eq(self.rows[i].job.status.as_str(), "pending") {
                match best {
                    None => {
                        proof {
                            crate::text::lemma_before_irreflexive(
                                self.rows@[i as int].created_at@,
                            );
                        }
                        best = Some(i);
                    },
                    Some(b) => {
                        let earlier = text_before(
                            self.rows[i].created_at.as_str(),
                            self.rows[b].created_at.as_str(),
                        );
                        proof {
                            let ci = self.rows@[i as int].created_at@;
                            let cb = self.rows@[b as int].created_at@;
                            crate::text::lemma_before_irreflexive(ci);
                            if earlier {
                                assert forall|j: int|
                                    0 <= j < then_seen.len() && pending(
                                        #[trigger] then_seen[j],
                                    ) implies !before(then_seen[j].created_at@, ci) by {
                                    if j < i {
                                        let cj = then_seen[j].created_at@;
                                        assert(now_seen[j] == then_seen[j]);
                                        assert(!before(cj, cb));
                                        if before(cj, ci) {
                                            crate::text::lemma_before_transitive(cj, ci, cb);
                                        }
                                    }
                                }
                                assert forall|j: int|
                                    0 <= j < i && pending(
                                        #[trigger] then_seen[j],
                                    ) implies then_seen[j].created_at@ != ci by {
                                    assert(now_seen[j] == then_seen[j]);
                                }
                            } else {
                                assert(now_seen[b as int] == then_seen[b as int]);
                            }
                        }
                        if earlier {
                            best = Some(i);
                        }
                    },
                }
            }
            i = i + 1;
        }
        assert(self.rows@.take(self.rows@.len() as int) =~= self.rows@);
        best
    }

    /// Leases the next job to a worker; nothing when none waits.
    pub fn claim_next(&mut self, lease_until: &str, now: &str) -> (r: Option<ReviewJob>)
        requires
            forall|i: int|
                0 <= i < old(self)@.len() ==> (#[trigger] old(self)@[i]).job.attempts < i64::MAX,
        ensures
            match r {
                Some(job) => exists|i: int|
                    #[trigger] is_next(old(self)@, i) && leased(
                        old(self)@[i],
                        final(self)@[i],
                        lease_until@,
                        now@,
                    ) && final(self)@ == old(self)@.update(i, final(self)@[i]) && job
                        == final(self)@[i].job,
                None => final(self)@ == old(self)@ && forall|i: int|
                    0 <= i < old(self)@.len() ==> !pending(#[trigger] old(self)@[i]),
            },
    {
        match self.next_index() {
            None => None,
            Some(i) => {
                let ghost start = self.rows@;
                self.rows[i].job.status = "running".to_owned();
                self.rows[i].job.attempts = self.rows[i].job.attempts + 1;
                self.rows[i].lease_until = Some(lease_until.to_owned());
                self.rows[i].updated_at = now.to_owned();
                assert(self.rows@ =~= start.update(i as int, self.rows@[i as int]));
                assert(is_next(start, i as int));
                Some(copy_job(&self.rows[i].job))
            },
        }
    }

    fn release(&mut self, id: &str, status: &str, error: Option<&str>, now: &str)
        ensures
            final(self)@.len() == old(self)@.len(),
            forall|i: int|
                0 <= i < old(self)@.len() ==> if old(self)@[i].job.id@ == id@ {
                    released(old(self)@[i], #[trigger] final(self)@[i], status@, now@) && match error {
                        Some(e) => final(self)@[i].error matches Some(f) && f@ == e@,
                        None => final(self)@[i].error == old(self)@[i].error,
                    }
                } else {
                    final(self)@[i] == old(self)@[i]
                },
    {
        let ghost start = self.rows@;
        let mut i: usize = 0;
        while i < self.rows.len()
            invariant
                i <= self.rows@.len(),
                self.rows@.len() == start.len(),
                forall|k: int|
                    0 <= k < i ==> if start[k].job.id@ == id@ {
                        released(start[k], #[trigger] self.rows@[k], status@, now@) && match error {
                            Some(e) => self.rows@[k].error matches Some(f) && f@ == e@,
                            None => self.rows@[k].error == start[k].error,
                        }
                    } else {
                        self.rows@[k] == start[k]
                    },
                forall|k: int| i <= k < start.len() ==> #[trigger] self.rows@[k] == start[k],
            decreases self.rows.len() - i,
        {
            assert(self.rows@[i as int] == start[i as int]);
            if text_eq(self.rows[i].job.id.as_str(), id) {
                self.rows[i].job.status = status.to_owned();
                self.rows[i].lease_until = None;
                self.rows[i].updated_at = now.to_owned();
                match error {
                    Some(e) => {
                        self.rows[i].error = Some(e.to_owned());
                    },
                    None => {},
                }
            }
            i = i + 1;
        }
    }

    /// Marks a job done.
    pub fn finish(&mut self, id: &str, now: &str)
        ensures
            final(self)@.len() == old(self)@.len(),
            forall|i: int|
                0 <= i < old(self)@.len() ==> if old(self)@[i].job.id@ == id@ {
                    released(old(self)@[i], #[trigger] final(self)@[i], "done"@, now@)
                        && final(self)@[i].error == old(self)@[i].error
                } else {
                    final(self)@[i] == old(self)@[i]
                },
    {
        self.release(id, "done", None, now);
    }

    /// Records a failed attempt. The job waits for another one, or has failed
    /// for good at the limit; that is what is returned.
    pub fn fail(&mut self, id: &str, error: &str, attempts: i64, max_attempts: i64, now: &str) -> (r:
        bool)
        ensures
            r == (attempts >= max_attempts),
            final(self)@.len() == old(self)@.len(),
            forall|i: int|
                0 <= i < old(self)@.len() ==> if old(self)@[i].job.id@ == id@ {
                    released(
                        old(self)@[i],
                        #[trigger] final(self)@[i],
                        after_failure(attempts, max_attempts),
                        now@,
                    ) && (final(self)@[i].error matches Some(f) && f@ == error@)
                } else {
                    final(self)@[i] == old(self)@[i]
                },
    {
        let terminal = attempts >= max_attempts;
        let status = if terminal {
            "failed"
        } else {
            "pending"
        };
        self.release(id, status, Some(error), now);
        terminal
    }

    /// The newest job of a request.
    pub fn latest_for_request(&self, request_id: &str) -> (r: Option<ReviewJob>)
        ensures
            match r {
                Some(j) => exists|i: int|
                    #[trigger] is_latest(self@, request_id@, i) && j == self@[i].job,
                None => forall|i: int|
                    0 <= i < self@.len() ==> (#[trigger] self@[i]).job.request_id@ != request_id@,
            },
    {
        let mut best: Option<usize> = None;
        let mut i: usize = 0;
        while i < self.rows.len()
            invariant
                i <= self.rows@.len(),
                match best {
                    Some(b) => b < i && is_latest(self.rows@.take(i as int), request_id@, b as int),
                    None => forall|j: int|
                        0 <= j < i ==> (#[trigger] self.rows@[j]).job.request_id@ != request_id@,
                },
            decreases self.rows.len() - i,
        {
            let ghost now_seen = self.rows@.take(i as int);
            let ghost then_seen = self.rows@.take(i + 1);
            assert(forall|j: int| 0 <= j < i ==> #[trigger] now_seen[j] == then_seen[j]);
            assert(then_seen[i as int] == self.rows@[i as int]);
            if text_eq(self.rows[i].job.request_id.as_str(), request_id) {
                proof {
                    crate::text::lemma_before_irreflexive(self.rows@[i as int].created_at@);
                }
                let newer = match best {
                    None => true,
                    Some(b) => !text_before(
                        self.rows[i].created_at.as_str(),
                        self.rows[b].created_at.as_str(),
                    ),
                };
                proof {
                    if best is Some {
                        let b = best->0 as int;
                        let ci = self.rows@[i as int].created_at@;
                        let cb = self.rows@[b].created_at@;
                        crate::text::lemma_before_total(ci, cb);
                        assert(now_seen[b] == then_seen[b]);
                        if newer {
                            assert forall|j: int|
                                0 <= j < then_seen.len() && (
                                #[trigger] then_seen[j]).job.request_id@
                                    == request_id@ implies !before(
                                ci,
                                then_seen[j].created_at@,
                            ) by {
                                if j < i {
                                    let cj = then_seen[j].created_at@;
                                    assert(now_seen[j] == then_seen[j]);
                                    assert(!before(cb, cj));
                                    if before(ci, cj) {
                                        if before(cb, ci) {
                                            crate::text::lemma_before_transitive(cb, ci, cj);
                                        }
                                    }
                                }
                            }
                        } else {
                            crate::text::lemma_before_irreflexive(cb);
                            if before(cb, ci) {
                                crate::text::lemma_before_transitive(cb, ci, cb);
                            }
                        }
                    }
                }
                if newer {
                    best = Some(i);
                }
            }
            i = i + 1;
        }
        assert(self.rows@.take(self.rows@.len() as int) =~= self.rows@);
        match best {
            Some(b) => {
                assert(is_latest(self@, request_id@, b as int));
                Some(copy_job(&self.rows[b].job))
            },
            None => None,
        }
    }
}

/// What a worker does after running a job.
#[derive(Debug, Clone, Copy, PartialEq, Eq, Structural)]
pub enum AfterRun {
    /// Mark it done and go on.
    Finish,
    /// It failed for good: flag its promotion and go on.
    FailClosed,
    /// It waits for another pass; stop this one.
    Retry,
}

/// What a worker does after running a job that took its `attempts`-th attempt.
pub fn after_run(ok: bool, attempts: i64) -> (r: AfterRun)
    ensures
        r == if ok {
            AfterRun::Finish
        } else if attempts >= 3 {
            AfterRun::FailClosed
        } else {
            AfterRun::Retry
        },
        ok <==> r == AfterRun::Finish,
        !ok && attempts < 3 ==> r == AfterRun::Retry,
        !ok && 3 <= attempts ==> r == AfterRun::FailClosed,
{
    if ok {
        AfterRun::Finish
    } else if attempts >= REVIEW_MAX_ATTEMPTS {
        AfterRun::FailClosed
    } else {
        AfterRun::Retry
    }
}

/// A leased job is not the next one: no second worker takes it while the lease
/// holds.
pub proof fn law_leased_job_is_exclusive(
    rows: Seq<JobRow>,
    after: Seq<JobRow>,
    i: int,
    lease: Seq<char>,
    now: Seq<char>,
)
    requires
        0 <= i < rows.len(),
        leased(rows[i], after[i], lease, now),
        after == rows.update(i, after[i]),
    ensures
        !is_next(after, i),
{
    reveal_strlit("pending");
    reveal_strlit("running");
    assert("pending"@[0] == 'p');
    assert("running"@[0] == 'r');
}

/// A job below its attempt limit comes back to the queue when it fails; at the
/// limit it never does.
pub proof fn law_failed_job_returns_below_limit(
    a: JobRow,
    b: JobRow,
    attempts: i64,
    max_attempts: i64,
    now: Seq<char>,
)
    requires
        released(a, b, after_failure(attempts, max_attempts), now),
    ensures
        pending(b) <==> attempts < max_attempts,
{
    reveal_strlit("pending");
    reveal_strlit("failed");
    assert("pending"@.len() == 7);
    assert("failed"@.len() == 6);
}

/// The job that is taken next is `pending`, and none that is `pending` was created before
/// it; of those created together none was queued before it.
pub proof fn law_oldest_waiting_job_is_next(rows: Seq<JobRow>, i: int, j: int)
    requires
        is_next(rows, i),
        0 <= j < rows.len(),
        rows[j].job.status@ == "pending"@,
    ensures
        rows[i].job.status@ == "pending"@,
        !before(rows[j].created_at@, rows[i].created_at@),
        rows[j].created_at@ == rows[i].created_at@ ==> i <= j,
{
    assert(pending(rows[j]));
}

/// Only a `running` job whose lease is past goes back to the queue, and what is counted
/// are those jobs.
pub proof fn law_only_run_out_leases_are_reclaimed(rows: Seq<JobRow>, now: Seq<char>)
    ensures
        forall|i: int|
            0 <= i < rows.len() ==> (#[trigger] stale(rows[i], now) <==> rows[i].job.status@
                == "running"@ && (rows[i].lease_until matches Some(l) && before(l@, now))),
        stale_count(rows, now) == rows.filter(
            |r: JobRow|
                r.job.status@ == "running"@ && r.lease_until is Some && before(
                    r.lease_until->0@,
                    now,
                ),
        ).len(),
    decreases rows.len(),
{
    reveal(Seq::filter);
    if rows.len() > 0 {
        law_only_run_out_leases_are_reclaimed(rows.drop_last(), now);
    }
}

/// A leased job runs, has one attempt more and is held until the lease runs out; a
/// released one is held by nobody and keeps its attempts. Neither becomes another job.
pub proof fn law_lease_and_release(
    a: JobRow,
    b: JobRow,
    status: Seq<char>,
    lease: Seq<char>,
    now: Seq<char>,
)
    ensures
        leased(a, b, lease, now) ==> {
            &&& b.job.status@ == "running"@
            &&& b.job.attempts == a.job.attempts + 1
            &&& b.lease_until matches Some(l) && l@ == lease
            &&& b.updated_at@ == now
            &&& b.error == a.error
        },
        released(a, b, status, now) ==> {
            &&& b.job.status@ == status
            &&& b.job.attempts == a.job.attempts
            &&& b.lease_until is None
            &&& b.updated_at@ == now
        },
        leased(a, b, lease, now) || released(a, b, status, now) ==> {
            &&& b.job.id == a.job.id
            &&& b.job.request_id == a.job.request_id
            &&& b.job.project_id == a.job.project_id
            &&& b.job.target == a.job.target
            &&& b.created_at == a.created_at
        },
{
}

/// A failed attempt leaves a job `failed` at the limit of attempts and `pending` below
/// it.
pub proof fn law_where_a_failure_leaves_a_job(attempts: i64, max_attempts: i64)
    ensures
        attempts >= max_attempts ==> after_failure(attempts, max_attempts) == "failed"@,
        attempts < max_attempts ==> after_failure(attempts, max_attempts) == "pending"@,
{
}

/// The newest job of a request is one of its own, and none of its own was created later.
pub proof fn law_latest_job_is_the_requests_own(
    rows: Seq<JobRow>,
    request_id: Seq<char>,
    i: int,
    j: int,
)
    requires
        is_latest(rows, request_id, i),
        0 <= j < rows.len(),
        rows[j].job.request_id@ == request_id,
    ensures
        rows[i].job.request_id@ == request_id,
        !before(rows[i].created_at@, rows[j].created_at@),
{
}

} // verus!
