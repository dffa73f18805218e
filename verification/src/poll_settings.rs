//! Polling intervals of the daemon's jobs, derived from the per-section rates
//! the GUI stores in its settings.
//!
//! Field mapping (GUI rate -> daemon job):
//! - `cpu_poll_rate`, `gpu_poll_rate` -> `hardware_monitor` = min(cpu, gpu):
//!   the job fills one cache read by both sections, so it runs at the faster
//!   rate;
//! - `fans_poll_rate` -> `fan_control`;
//! - `gpu_overclock_poll_rate` -> `gpu_overclock`.
//!
//! Every derived interval is at least 50 ms, whatever the GUI sent.
use std::time::Duration;
use vstd::prelude::*;

verus! {

/// Legacy interval of the hardware monitor job (ms); also its default.
pub const DEFAULT_HARDWARE_MONITOR_MS: u64 = 1000;

/// Legacy interval of the fan control job (ms); also its default.
pub const DEFAULT_FAN_CONTROL_MS: u64 = 2000;

/// Legacy interval of the GPU overclock job (ms); also its default.
pub const DEFAULT_GPU_OVERCLOCK_MS: u64 = 1000;

/// Shortest interval any job may be given (ms).
pub const MIN_POLL_INTERVAL_MS: u64 = 50;

/// What `Duration::from_millis` returns for a number of milliseconds.
pub uninterp spec fn duration_from_millis(ms: u64) -> Duration;

/// Trusted: calls `Duration::from_millis`, whose result depends on its
/// argument alone and is named `duration_from_millis`.
#[verifier::external_body]
fn millis(ms: u64) -> (d: Duration)
    ensures
        d == duration_from_millis(ms),
{
    Duration::from_millis(ms)
}

/// The intervals of the three daemon jobs, in milliseconds.
#[derive(Debug, Clone, Copy)]
pub struct DaemonPollSettings {
    pub hardware_monitor_ms: u64,
    pub fan_control_ms: u64,
    pub gpu_overclock_ms: u64,
}

/// The GUI's per-section rates that the daemon reads, in milliseconds.
#[derive(Debug, Clone, Copy)]
pub struct StatisticsSectionsMirror {
    pub cpu_poll_rate: u64,
    pub memory_poll_rate: u64,
    pub gpu_poll_rate: u64,
    pub fans_poll_rate: u64,
    pub gpu_overclock_poll_rate: u64,
}

impl Default for StatisticsSectionsMirror {
    /// The GUI's own defaults: a missing field takes the value a fresh GUI
    /// install would write.
    fn default() -> (r: Self)
        ensures
            r.cpu_poll_rate == 1000,
            r.memory_poll_rate == 1000,
            r.gpu_poll_rate == 2000,
            r.fans_poll_rate == 1000,
            r.gpu_overclock_poll_rate == DEFAULT_GPU_OVERCLOCK_MS,
    {
        StatisticsSectionsMirror {
            cpu_poll_rate: 1000,
            memory_poll_rate: 1000,
            gpu_poll_rate: 2000,
            fans_poll_rate: 1000,
            gpu_overclock_poll_rate: DEFAULT_GPU_OVERCLOCK_MS,
        }
    }
}

impl Default for DaemonPollSettings {
    /// The legacy intervals (1 s monitor, 2 s fans, 1 s GPU overclock).
    fn default() -> (r: Self)
        ensures
            r.hardware_monitor_ms == DEFAULT_HARDWARE_MONITOR_MS,
            r.fan_control_ms == DEFAULT_FAN_CONTROL_MS,
            r.gpu_overclock_ms == DEFAULT_GPU_OVERCLOCK_MS,
    {
        DaemonPollSettings {
            hardware_monitor_ms: DEFAULT_HARDWARE_MONITOR_MS,
            fan_control_ms: DEFAULT_FAN_CONTROL_MS,
            gpu_overclock_ms: DEFAULT_GPU_OVERCLOCK_MS,
        }
    }
}

pub open spec fn min_u64(a: u64, b: u64) -> u64 {
    if a <= b {
        a
    } else {
        b
    }
}

pub open spec fn at_least_min(a: u64) -> u64 {
    if a >= MIN_POLL_INTERVAL_MS {
        a
    } else {
        MIN_POLL_INTERVAL_MS
    }
}

impl DaemonPollSettings {
    /// Job intervals for the given GUI rates.
    pub fn from_sections(s: &StatisticsSectionsMirror) -> (r: Self)
        ensures
            r.hardware_monitor_ms == at_least_min(min_u64(s.cpu_poll_rate, s.gpu_poll_rate)),
            r.fan_control_ms == at_least_min(s.fans_poll_rate),
            r.gpu_overclock_ms == at_least_min(s.gpu_overclock_poll_rate),
    {
        let fastest = if s.cpu_poll_rate <= s.gpu_poll_rate {
            s.cpu_poll_rate
        } else {
            s.gpu_poll_rate
        };
        DaemonPollSettings {
            hardware_monitor_ms: if fastest >= MIN_POLL_INTERVAL_MS {
                fastest
            } else {
                MIN_POLL_INTERVAL_MS
            },
            fan_control_ms: if s.fans_poll_rate >= MIN_POLL_INTERVAL_MS {
                s.fans_poll_rate
            } else {
                MIN_POLL_INTERVAL_MS
            },
            gpu_overclock_ms: if s.gpu_overclock_poll_rate >= MIN_POLL_INTERVAL_MS {
                s.gpu_overclock_poll_rate
            } else {
                MIN_POLL_INTERVAL_MS
            },
        }
    }

    /// Interval of the hardware monitor job.
    pub fn hardware_monitor(&self) -> (d: Duration)
        ensures
            d == duration_from_millis(self.hardware_monitor_ms),
    {
        millis(self.hardware_monitor_ms)
    }

    /// Interval of the fan control job.
    pub fn fan_control(&self) -> (d: Duration)
        ensures
            d == duration_from_millis(self.fan_control_ms),
    {
        millis(self.fan_control_ms)
    }

    /// Interval of the GPU overclock job.
    pub fn gpu_overclock(&self) -> (d: Duration)
        ensures
            d == duration_from_millis(self.gpu_overclock_ms),
    {
        millis(self.gpu_overclock_ms)
    }
}

/// The jobs, in the order in which updates are reported.
pub open spec fn job_name(i: int) -> Seq<char> {
    if i == 0 {
        "hardware_monitor"@
    } else if i == 1 {
        "fan_control"@
    } else {
        "gpu_overclock"@
    }
}

pub open spec fn job_ms(s: DaemonPollSettings, i: int) -> u64 {
    if i == 0 {
        s.hardware_monitor_ms
    } else if i == 1 {
        s.fan_control_ms
    } else {
        s.gpu_overclock_ms
    }
}

/// The update a single job contributes: its name and new interval when the
/// interval changed, nothing otherwise.
pub open spec fn job_update(prev: DaemonPollSettings, next: DaemonPollSettings, i: int) -> Seq<
    (Seq<char>, u64),
> {
    if job_ms(prev, i) != job_ms(next, i) {
        seq![(job_name(i), job_ms(next, i))]
    } else {
        Seq::empty()
    }
}

/// The (job, new interval in ms) pairs of the jobs whose interval differs
/// between `prev` and `next`, in job order.
pub open spec fn interval_updates(prev: DaemonPollSettings, next: DaemonPollSettings) -> Seq<
    (Seq<char>, u64),
> {
    job_update(prev, next, 0) + job_update(prev, next, 1) + job_update(prev, next, 2)
}

/// `r` lists, entry by entry, the job names and the durations of the
/// intervals in `u`.
pub open spec fn reports(r: Seq<(&'static str, Duration)>, u: Seq<(Seq<char>, u64)>) -> bool {
    &&& r.len() == u.len()
    &&& forall|i: int|
        0 <= i < r.len() ==> (#[trigger] r[i]).0@ == u[i].0 && r[i].1 == duration_from_millis(
            u[i].1,
        )
}

/// Which job intervals differ between two setting sets, with the new
/// interval of each.
pub fn compute_interval_updates(prev: &DaemonPollSettings, next: &DaemonPollSettings) -> (r: Vec<
    (&'static str, Duration),
>)
    ensures
        reports(r@, interval_updates(*prev, *next)),
{
    let mut updates: Vec<(&'static str, Duration)> = Vec::new();
    if prev.hardware_monitor_ms != next.hardware_monitor_ms {
        updates.push(("hardware_monitor", next.hardware_monitor()));
    }
    proof {
        assert(reports(updates@, job_update(*prev, *next, 0)));
    }
    let ghost u1 = updates@;
    if prev.fan_control_ms != next.fan_control_ms {
        updates.push(("fan_control", next.fan_control()));
    }
    proof {
        assert(reports(updates@, job_update(*prev, *next, 0) + job_update(*prev, *next, 1))) by {
            assert forall|i: int| 0 <= i < u1.len() implies updates@[i] == u1[i] by {}
        }
    }
    let ghost u2 = updates@;
    if prev.gpu_overclock_ms != next.gpu_overclock_ms {
        updates.push(("gpu_overclock", next.gpu_overclock()));
    }
    proof {
        assert(reports(updates@, interval_updates(*prev, *next))) by {
            assert forall|i: int| 0 <= i < u2.len() implies updates@[i] == u2[i] by {}
        }
    }
    updates
}

/// Every interval derived from GUI rates is at least the 50 ms floor, and the
/// hardware monitor runs at the faster of the CPU and GPU rates.
pub proof fn lemma_derived_intervals_are_floored(s: StatisticsSectionsMirror, r: DaemonPollSettings)
    requires
        r.hardware_monitor_ms == at_least_min(min_u64(s.cpu_poll_rate, s.gpu_poll_rate)),
        r.fan_control_ms == at_least_min(s.fans_poll_rate),
        r.gpu_overclock_ms == at_least_min(s.gpu_overclock_poll_rate),
    ensures
        r.hardware_monitor_ms >= MIN_POLL_INTERVAL_MS,
        r.fan_control_ms >= MIN_POLL_INTERVAL_MS,
        r.gpu_overclock_ms >= MIN_POLL_INTERVAL_MS,
        r.hardware_monitor_ms <= s.cpu_poll_rate || s.cpu_poll_rate < MIN_POLL_INTERVAL_MS,
        r.hardware_monitor_ms <= s.gpu_poll_rate || s.gpu_poll_rate < MIN_POLL_INTERVAL_MS,
{
}

proof fn lemma_job_names_distinct()
    ensures
        job_name(0) != job_name(1),
        job_name(0) != job_name(2),
        job_name(1) != job_name(2),
{
    reveal_strlit("hardware_monitor");
    reveal_strlit("fan_control");
    reveal_strlit("gpu_overclock");
    assert(job_name(0).len() != job_name(1).len());
    assert(job_name(0).len() != job_name(2).len());
    assert(job_name(1).len() != job_name(2).len());
}

/// Applying the computed updates to the previous settings gives exactly the
/// next settings: a job is listed if and only if its interval changed, and
/// then with its new interval. In particular, identical settings produce no
/// update at all.
pub proof fn lemma_updates_reproduce_next(prev: DaemonPollSettings, next: DaemonPollSettings)
    ensures
        forall|i: int, k: int|
            0 <= i < 3 && 0 <= k < interval_updates(prev, next).len() && (#[trigger] interval_updates(
                prev,
                next,
            )[k]).0 == #[trigger] job_name(i) ==> interval_updates(prev, next)[k].1 == job_ms(next, i),
        forall|i: int|
            0 <= i < 3 ==> (job_ms(prev, i) != job_ms(next, i) <==> exists|k: int|
                0 <= k < interval_updates(prev, next).len() && (#[trigger] interval_updates(
                    prev,
                    next,
                )[k]).0 == #[trigger] job_name(i)),
        (prev.hardware_monitor_ms == next.hardware_monitor_ms && prev.fan_control_ms
            == next.fan_control_ms && prev.gpu_overclock_ms == next.gpu_overclock_ms)
            <==> interval_updates(prev, next).len() == 0,
{
    lemma_job_names_distinct();
    let u = interval_updates(prev, next);
    let a = job_update(prev, next, 0);
    let b = job_update(prev, next, 1);
    let c = job_update(prev, next, 2);
    assert forall|k: int| 0 <= k < u.len() implies exists|j: int|
        0 <= j < 3 && #[trigger] u[k] == (job_name(j), job_ms(next, j)) && job_ms(prev, j)
            != job_ms(next, j) by {
        if k < a.len() {
            assert(u[k] == a[k]);
        } else if k < a.len() + b.len() {
            assert(u[k] == b[k - a.len()]);
        } else {
            assert(u[k] == c[k - a.len() - b.len()]);
        }
    }
    assert forall|i: int|
        0 <= i < 3 && job_ms(prev, i) != job_ms(next, i) implies exists|k: int|
        0 <= k < u.len() && (#[trigger] u[k]).0 == #[trigger] job_name(i) by {
        if i == 0 {
            assert(u[0] == a[0]);
        } else if i == 1 {
            assert(u[a.len() as int] == b[0]);
        } else {
            assert(u[(a.len() + b.len()) as int] == c[0]);
        }
    }
    assert forall|i: int, k: int|
        0 <= i < 3 && 0 <= k < u.len() && (#[trigger] u[k]).0 == #[trigger] job_name(i) implies u[k].1
        == job_ms(next, i) && job_ms(prev, i) != job_ms(next, i) by {
        let j = choose|j: int|
            0 <= j < 3 && #[trigger] u[k] == (job_name(j), job_ms(next, j)) && job_ms(prev, j)
                != job_ms(next, j);
        assert(j == i);
    }
}

} // verus!
