use lapsphere::cold_power::{settle_cold_power, ColdPowerRetry, PowerSampler, SettleStep};

/// A sampler that counts its calls and answers from a closure.
struct Counting<R: FnMut(u32) -> Result<u32, String>> {
    reads: u32,
    waits: u32,
    answer: R,
}

impl<R: FnMut(u32) -> Result<u32, String>> PowerSampler for Counting<R> {
    fn read(&mut self) -> Result<u32, String> {
        self.reads += 1;
        (self.answer)(self.reads)
    }
    fn wait(&mut self) {
        self.waits += 1;
    }
}

#[test]
fn valid_initial_sample_needs_no_retry() {
    let mut s = Counting { reads: 0, waits: 0, answer: |_| -> Result<u32, String> { panic!("unexpected read") } };
    assert_eq!(settle_cold_power(0, 150_000, &mut s).unwrap(), 0);
    assert_eq!((s.reads, s.waits), (0, 0));
}

#[test]
fn retries_invalid_sample_without_clamping() {
    let mut s = Counting {
        reads: 0,
        waits: 0,
        answer: |reads| Ok(if reads < 3 { 753_173 } else { 31_088 }),
    };
    let value = settle_cold_power(753_173, 150_000, &mut s).unwrap();
    assert_eq!((value, s.reads, s.waits), (31_088, 3, 3));
}

#[test]
fn persistent_invalid_sample_returns_error_with_bounded_retries() {
    let mut s = Counting { reads: 0, waits: 0, answer: |_| Ok(753_173) };
    let error = settle_cold_power(753_173, 150_000, &mut s).unwrap_err();
    assert_eq!((s.reads, s.waits), (10, 10));
    assert!(error.message().contains("not ready after 10 retries"));
}

#[test]
fn driver_errors_do_not_turn_into_a_power_value() {
    let mut s = Counting { reads: 0, waits: 0, answer: |_| Err("GPU lost".to_string()) };
    let error = settle_cold_power(753_173, 150_000, &mut s).unwrap_err();
    assert!(error.message().contains("GPU lost"));
}

#[test]
fn the_error_names_the_last_rejected_sample() {
    let mut s = Counting {
        reads: 0,
        waits: 0,
        answer: |reads| if reads < 10 { Err("busy".to_string()) } else { Ok(200_000) },
    };
    let error = settle_cold_power(753_173, 150_000, &mut s).unwrap_err();
    assert_eq!(
        error.message(),
        "Cold GPU power telemetry not ready after 10 retries: 200000 mW exceeds 150000 mW"
    );
}

#[test]
fn a_sample_at_the_limit_is_accepted() {
    match ColdPowerRetry::start(150_000, 150_000) {
        SettleStep::Done(Ok(v)) => assert_eq!(v, 150_000),
        _ => panic!("a sample at the limit must be accepted"),
    }
    match ColdPowerRetry::start(150_001, 150_000) {
        SettleStep::Retry(r) => assert_eq!((r.attempts, r.maximum), (0, 150_000)),
        _ => panic!("a sample above the limit must be retried"),
    }
}
