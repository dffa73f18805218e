use lapsphere::scheduler::{JobQueue, PollJob, IDLE_SLEEP_MS};
use std::cell::Cell;

/// A poll function that counts its runs and fails or succeeds.
fn counter(runs: &Cell<u32>, fail: bool) -> impl Fn() -> Result<(), String> + '_ {
    move || {
        runs.set(runs.get() + 1);
        if fail {
            Err("sensor gone".to_string())
        } else {
            Ok(())
        }
    }
}

#[test]
fn a_failing_job_is_still_rescheduled() {
    let runs = Cell::new(0);
    let mut job = PollJob::new("hardware_monitor".to_string(), 1000, 0, counter(&runs, true));
    assert_eq!(job.next_run_ms, 0);
    assert!(job.execute(&|| 5u64).is_err());
    assert_eq!(job.next_run_ms, 1005);
    assert_eq!(runs.get(), 1);
}

#[test]
fn only_due_jobs_run_and_the_queue_sleeps_until_the_next_one() {
    let a = Cell::new(0);
    let b = Cell::new(0);
    let mut q = JobQueue::new();
    assert_eq!(q.sleep_ms(0), IDLE_SLEEP_MS);
    q.add_job(PollJob::new("a".to_string(), 1000, 100, counter(&a, false)));
    q.add_job(PollJob::new("b".to_string(), 2000, 500, counter(&b, false)));
    assert_eq!(q.sleep_ms(40), 60);
    q.execute_due_jobs(200, &|| 210u64);
    assert_eq!((a.get(), b.get()), (1, 0));
    assert_eq!(q.jobs[0].next_run_ms, 1210);
    assert_eq!(q.jobs[1].next_run_ms, 500);
    assert_eq!(q.sleep_ms(300), 200);
    assert_eq!(q.sleep_ms(900), 0);
}

#[test]
fn interval_changes_reschedule_and_removal_drops_the_job() {
    let a = Cell::new(0);
    let mut q = JobQueue::new();
    q.add_job(PollJob::new("fan_control".to_string(), 2000, 0, counter(&a, false)));
    q.add_job(PollJob::new("gpu_overclock".to_string(), 1000, 0, counter(&a, false)));
    q.update_job_interval("fan_control", 750, 100);
    assert_eq!((q.jobs[0].interval_ms, q.jobs[0].next_run_ms), (750, 850));
    assert_eq!((q.jobs[1].interval_ms, q.jobs[1].next_run_ms), (1000, 0));
    q.remove_job("gpu_overclock");
    assert_eq!(q.jobs.len(), 1);
    assert_eq!(q.jobs[0].id, "fan_control");
}

#[test]
fn execute_reports_the_poll_outcome() {
    let runs = Cell::new(0);
    let mut job = PollJob::new("ok".to_string(), 10, 0, counter(&runs, false));
    assert_eq!(job.execute(&|| u64::MAX), Ok(()));
    assert_eq!(job.next_run_ms, u64::MAX);
    let mut bad = PollJob::new("bad".to_string(), 10, 0, counter(&runs, true));
    assert_eq!(bad.execute(&|| 7u64), Err("sensor gone".to_string()));
    assert_eq!(runs.get(), 2);
}
