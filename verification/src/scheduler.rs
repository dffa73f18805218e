//! The polling scheduler's job queue: which job runs when.
//!
//! Jobs carry their next run time and interval on a monotonic millisecond
//! clock. The queue answers how long the scheduler may sleep, runs the jobs
//! that are due (earliest first, each rescheduled one interval after it
//! finished, even when it failed), and applies interval changes and
//! removals. Waiting for the next deadline or command is the caller's.
use vstd::prelude::*;

verus! {

/// A single polling job with its schedule and action.
pub struct PollJob<F> {
    /// Unique identifier of this job.
    pub id: String,
    /// When this job should run next (monotonic milliseconds).
    pub next_run_ms: u64,
    /// Interval between runs (milliseconds).
    pub interval_ms: u64,
    /// The polling function: one run, and the error text when it failed.
    pub poll_fn: F,
}

/// `a + b`, held at `u64::MAX`.
pub open spec fn sat_add(a: u64, b: u64) -> u64 {
    if a + b > u64::MAX {
        u64::MAX
    } else {
        (a + b) as u64
    }
}

/// A run of `poll` can end in `r`, and a reading of `clock` taken after it
/// can be `t`, with the job then due at `t` plus `interval`.
pub open spec fn ran_and_rescheduled<F: Fn() -> Result<(), String>, C: Fn() -> u64>(
    poll: F,
    clock: C,
    interval_ms: u64,
    next_run_ms: u64,
) -> bool {
    exists|r: Result<(), String>, t: u64|
        call_ensures(poll, (), r) && call_ensures(clock, (), t) && next_run_ms == sat_add(t, interval_ms)
}

impl<F: Fn() -> Result<(), String>> PollJob<F> {
    /// A job that is due at once.
    pub fn new(id: String, interval_ms: u64, now_ms: u64, poll_fn: F) -> (r: Self)
        ensures
            r.id == id,
            r.interval_ms == interval_ms,
            r.next_run_ms == now_ms,
            r.poll_fn == poll_fn,
    {
        PollJob { id, next_run_ms: now_ms, interval_ms, poll_fn }
    }

    /// Runs the job's poll function once and reports its outcome; then
    /// reads the clock and reschedules the job one interval after that
    /// reading (held at `u64::MAX`), even when the run failed.
    pub fn execute<C: Fn() -> u64>(&mut self, clock: &C) -> (r: Result<(), String>)
        requires
            call_requires(old(self).poll_fn, ()),
            call_requires(*clock, ()),
        ensures
            call_ensures(old(self).poll_fn, (), r),
            exists|t: u64|
                call_ensures(*clock, (), t) && final(self).next_run_ms == sat_add(
                    t,
                    old(self).interval_ms,
                ),
            final(self).id == old(self).id,
            final(self).interval_ms == old(self).interval_ms,
            final(self).poll_fn == old(self).poll_fn,
    {
        let result = (self.poll_fn)();
        let t = clock();
        self.next_run_ms = t.saturating_add(self.interval_ms);
        assert(self.next_run_ms == sat_add(t, self.interval_ms));
        result
    }
}

/// Commands that can be sent to the scheduler.
pub enum SchedulerCommand<F> {
    /// Add a new polling job.
    AddJob(PollJob<F>),
    /// Change the interval (ms) of an existing job.
    UpdateInterval(String, u64),
    /// Remove a job by id.
    RemoveJob(String),
    /// Stop the scheduler.
    Shutdown,
}

/// How long the scheduler sleeps when it has no job (ms).
pub const IDLE_SLEEP_MS: u64 = 1000;

/// The scheduler's jobs.
pub struct JobQueue<F> {
    pub jobs: Vec<PollJob<F>>,
}

/// The earliest next run among the first `n` jobs.
pub open spec fn earliest<F>(jobs: Seq<PollJob<F>>, n: int) -> u64
    decreases n,
{
    if n <= 1 {
        jobs[0].next_run_ms
    } else {
        let e = earliest(jobs, n - 1);
        if jobs[n - 1].next_run_ms < e {
            jobs[n - 1].next_run_ms
        } else {
            e
        }
    }
}

/// The scheduler's sleep before its next step: until the earliest job is
/// due, nothing when one is due already, and a second when there is no job.
pub open spec fn sleep_before_next(jobs: Seq<PollJob<impl Sized>>, now_ms: u64) -> u64 {
    if jobs.len() == 0 {
        IDLE_SLEEP_MS
    } else {
        let e = earliest(jobs, jobs.len() as int);
        if e > now_ms {
            (e - now_ms) as u64
        } else {
            0
        }
    }
}

impl<F: Fn() -> Result<(), String>> JobQueue<F> {
    pub fn new() -> (r: Self)
        ensures
            r.jobs@.len() == 0,
    {
        JobQueue { jobs: Vec::new() }
    }

    /// Adds a job.
    pub fn add_job(&mut self, job: PollJob<F>)
        ensures
            final(self).jobs@ == old(self).jobs@.push(job),
    {
        self.jobs.push(job);
    }

    /// How long the scheduler may sleep before its next step (ms).
    pub fn sleep_ms(&self, now_ms: u64) -> (r: u64)
        ensures
            r == sleep_before_next(self.jobs@, now_ms),
    {
        if self.jobs.len() == 0 {
            return IDLE_SLEEP_MS;
        }
        let mut e = self.jobs[0].next_run_ms;
        let mut i: usize = 1;
        while i < self.jobs.len()
            invariant
                1 <= i <= self.jobs@.len(),
                e == earliest(self.jobs@, i as int),
            decreases self.jobs@.len() - i,
        {
            if self.jobs[i].next_run_ms < e {
                e = self.jobs[i].next_run_ms;
            }
            i = i + 1;
        }
        if e > now_ms {
            e - now_ms
        } else {
            0
        }
    }

    /// Sets the interval of every job with this id, and reschedules it one
    /// new interval from now.
    pub fn update_job_interval(&mut self, id: &str, new_interval_ms: u64, now_ms: u64)
        requires
            now_ms + new_interval_ms <= u64::MAX,
        ensures
            final(self).jobs@.len() == old(self).jobs@.len(),
            forall|k: int|
                0 <= k < old(self).jobs@.len() ==> {
                    let before = #[trigger] old(self).jobs@[k];
                    let after = final(self).jobs@[k];
                    &&& after.id == before.id
                    &&& after.poll_fn == before.poll_fn
                    &&& if before.id@ == id@ {
                        after.interval_ms == new_interval_ms && after.next_run_ms == now_ms
                            + new_interval_ms
                    } else {
                        after.interval_ms == before.interval_ms && after.next_run_ms
                            == before.next_run_ms
                    }
                },
    {
        let key = id.to_owned();
        let mut jobs = Vec::new();
        std::mem::swap(&mut jobs, &mut self.jobs);
        let ghost old_jobs = jobs@;
        let mut out: Vec<PollJob<F>> = Vec::new();
        let n = jobs.len();
        let mut i: usize = 0;
        while i < n
            invariant
                n == old_jobs.len(),
                key@ == id@,
                now_ms + new_interval_ms <= u64::MAX,
                i <= n,
                jobs@ == old_jobs.subrange(i as int, n as int),
                out@.len() == i,
                forall|k: int|
                    0 <= k < i ==> {
                        let before = #[trigger] old_jobs[k];
                        let after = out@[k];
                        &&& after.id == before.id
                        &&& after.poll_fn == before.poll_fn
                        &&& if before.id@ == id@ {
                            after.interval_ms == new_interval_ms && after.next_run_ms == now_ms
                                + new_interval_ms
                        } else {
                            after.interval_ms == before.interval_ms && after.next_run_ms
                                == before.next_run_ms
                        }
                    },
            decreases n - i,
        {
            let mut job = jobs.remove(0);
            proof {
                assert(job == old_jobs[i as int]);
                assert(jobs@ =~= old_jobs.subrange(i + 1, n as int));
            }
            if job.id == key {
                job.interval_ms = new_interval_ms;
                job.next_run_ms = now_ms + new_interval_ms;
            }
            out.push(job);
            i = i + 1;
        }
        self.jobs = out;
    }

    /// Removes every job with this id, keeping the others in order.
    pub fn remove_job(&mut self, id: &str)
        ensures
            final(self).jobs@ == old(self).jobs@.filter(|j: PollJob<F>| j.id@ != id@),
    {
        let key = id.to_owned();
        let mut jobs = Vec::new();
        std::mem::swap(&mut jobs, &mut self.jobs);
        let ghost old_jobs = jobs@;
        let mut out: Vec<PollJob<F>> = Vec::new();
        let n = jobs.len();
        let mut i: usize = 0;
        while i < n
            invariant
                n == old_jobs.len(),
                key@ == id@,
                i <= n,
                jobs@ == old_jobs.subrange(i as int, n as int),
                out@ == old_jobs.take(i as int).filter(|j: PollJob<F>| j.id@ != id@),
            decreases n - i,
        {
            let job = jobs.remove(0);
            proof {
                assert(job == old_jobs[i as int]);
                assert(jobs@ =~= old_jobs.subrange(i + 1, n as int));
                assert(old_jobs.take(i + 1).drop_last() =~= old_jobs.take(i as int));
                reveal(Seq::filter);
            }
            if !(job.id == key) {
                out.push(job);
            }
            i = i + 1;
        }
        proof {
            assert(old_jobs.take(n as int) =~= old_jobs);
        }
        self.jobs = out;
    }

    /// Runs every job that is due at `now_ms` (its next run is at or before
    /// it), earliest first: each due job's poll function runs once, and the
    /// job is rescheduled one interval after a clock reading taken after
    /// that run, even when it failed. Jobs that are not due are left as they
    /// are, and every job keeps its place, id, interval and poll function.
    pub fn execute_due_jobs<C: Fn() -> u64>(&mut self, now_ms: u64, clock: &C)
        requires
            forall|k: int| 0 <= k < old(self).jobs@.len() ==> call_requires(#[trigger] old(self).jobs@[k].poll_fn, ()),
            call_requires(*clock, ()),
        ensures
            final(self).jobs@.len() == old(self).jobs@.len(),
            forall|k: int|
                0 <= k < old(self).jobs@.len() ==> {
                    let before = #[trigger] old(self).jobs@[k];
                    let after = final(self).jobs@[k];
                    &&& after.id == before.id
                    &&& after.interval_ms == before.interval_ms
                    &&& after.poll_fn == before.poll_fn
                    &&& (before.next_run_ms > now_ms ==> after.next_run_ms == before.next_run_ms)
                    &&& (before.next_run_ms <= now_ms ==> ran_and_rescheduled(
                        before.poll_fn,
                        *clock,
                        before.interval_ms,
                        after.next_run_ms,
                    ))
                },
    {
        let n = self.jobs.len();
        let ghost old_jobs = self.jobs@;
        // Which jobs were due when the pass began; each runs once.
        let mut pending: Vec<bool> = Vec::new();
        let mut i: usize = 0;
        while i < n
            invariant
                n == self.jobs@.len(),
                self.jobs@ == old_jobs,
                i <= n,
                pending@.len() == i,
                forall|k: int| 0 <= k < i ==> #[trigger] pending@[k] == (old_jobs[k].next_run_ms <= now_ms),
            decreases n - i,
        {
            pending.push(self.jobs[i].next_run_ms <= now_ms);
            i = i + 1;
        }
        let mut remaining: usize = 0;
        let mut c: usize = 0;
        while c < n
            invariant
                n == pending@.len(),
                c <= n,
                remaining <= c,
                remaining == count_true(pending@, c as int),
            decreases n - c,
        {
            if pending[c] {
                remaining = remaining + 1;
            }
            c = c + 1;
        }
        while remaining > 0
            invariant
                n == self.jobs@.len(),
                n == pending@.len(),
                n == old_jobs.len(),
                remaining == count_true(pending@, n as int),
                call_requires(*clock, ()),
                forall|k: int| 0 <= k < n ==> call_requires(#[trigger] old_jobs[k].poll_fn, ()),
                forall|k: int|
                    0 <= k < n ==> {
                        let before = #[trigger] old_jobs[k];
                        let after = self.jobs@[k];
                        &&& after.id == before.id
                        &&& after.interval_ms == before.interval_ms
                        &&& after.poll_fn == before.poll_fn
                        &&& (pending@[k] ==> after.next_run_ms == before.next_run_ms
                            && before.next_run_ms <= now_ms)
                        &&& (before.next_run_ms > now_ms ==> after.next_run_ms == before.next_run_ms
                            && !pending@[k])
                        &&& (before.next_run_ms <= now_ms && !pending@[k] ==> ran_and_rescheduled(
                            before.poll_fn,
                            *clock,
                            before.interval_ms,
                            after.next_run_ms,
                        ))
                    },
            decreases remaining,
        {
            // The earliest job still pending runs next.
            let mut best: usize = n;
            let mut j: usize = 0;
            while j < n
                invariant
                    n == self.jobs@.len(),
                    n == pending@.len(),
                    j <= n,
                    best == n || (best < j && pending@[best as int]),
                    best == n ==> forall|q: int| 0 <= q < j ==> !pending@[q],
                decreases n - j,
            {
                if pending[j] {
                    if best == n || self.jobs[j].next_run_ms < self.jobs[best].next_run_ms {
                        best = j;
                    }
                }
                j = j + 1;
            }
            if best == n {
                proof {
                    lemma_count_true_zero(pending@, n as int);
                }
                assert(false);
                return;
            }
            let ghost before_jobs = self.jobs@;
            let mut job = self.jobs.remove(best);
            proof {
                assert(job == before_jobs[best as int]);
                assert(job.poll_fn == old_jobs[best as int].poll_fn);
            }
            let outcome = job.execute(clock);
            proof {
                let t = choose|t: u64| call_ensures(*clock, (), t) && job.next_run_ms == sat_add(
                    t,
                    old_jobs[best as int].interval_ms,
                );
                assert(ran_and_rescheduled(
                    old_jobs[best as int].poll_fn,
                    *clock,
                    old_jobs[best as int].interval_ms,
                    job.next_run_ms,
                )) by {
                    assert(call_ensures(old_jobs[best as int].poll_fn, (), outcome));
                }
            }
            self.jobs.insert(best, job);
            proof {
                assert forall|k: int| 0 <= k < n && k != best implies self.jobs@[k] == before_jobs[k] by {
                    if k < best {
                    } else {
                    }
                }
                lemma_count_true_set_false(pending@, best as int, n as int);
            }
            pending.set(best, false);
            remaining = remaining - 1;
        }
        proof {
            assert forall|k: int| 0 <= k < n implies !pending@[k] by {
                if pending@[k] {
                    lemma_count_true_positive(pending@, k, n as int);
                }
            }
        }
    }
}

/// How many of the first `n` flags are set.
pub open spec fn count_true(s: Seq<bool>, n: int) -> nat
    decreases n,
{
    if n <= 0 {
        0
    } else {
        count_true(s, n - 1) + if s[n - 1] {
            1nat
        } else {
            0nat
        }
    }
}

proof fn lemma_count_true_positive(s: Seq<bool>, k: int, n: int)
    requires
        0 <= k < n <= s.len(),
        s[k],
    ensures
        count_true(s, n) > 0,
    decreases n,
{
    if n - 1 > k {
        lemma_count_true_positive(s, k, n - 1);
    }
}

proof fn lemma_count_true_zero(s: Seq<bool>, n: int)
    requires
        0 <= n <= s.len(),
        forall|q: int| 0 <= q < n ==> !s[q],
    ensures
        count_true(s, n) == 0,
    decreases n,
{
    if n > 0 {
        lemma_count_true_zero(s, n - 1);
    }
}

proof fn lemma_count_true_set_false(s: Seq<bool>, b: int, n: int)
    requires
        0 <= b < n <= s.len(),
        s[b],
    ensures
        count_true(s.update(b, false), n) + 1 == count_true(s, n),
    decreases n,
{
    if n - 1 > b {
        lemma_count_true_set_false(s, b, n - 1);
    } else {
        lemma_count_true_same(s, s.update(b, false), b);
    }
}

proof fn lemma_count_true_same(s: Seq<bool>, t: Seq<bool>, n: int)
    requires
        0 <= n <= s.len(),
        n <= t.len(),
        forall|q: int| 0 <= q < n ==> s[q] == t[q],
    ensures
        count_true(s, n) == count_true(t, n),
    decreases n,
{
    if n > 0 {
        lemma_count_true_same(s, t, n - 1);
    }
}

} // verus!
