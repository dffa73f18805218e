//! Validation of the first GPU power sample after a wake from runtime suspend.
//!
//! A successful NVML read right after a D3 wake can return stale pre-ready
//! data (753 W measured on a 150 W laptop GPU). Such a sample is never clamped
//! into a plausible-looking value: the reading is repeated, at most ten times,
//! until it is within the adapter's limit, and otherwise the pass reports an
//! error instead of a power value.
use vstd::prelude::*;
use crate::text::{decimal, push_decimal};

verus! {

/// How many additional readings a cold wake may take.
pub const COLD_POWER_RETRIES: u32 = 10;

/// Where the power readings come from.
pub trait PowerSampler {
    /// One more reading of the power draw (milliwatts), or the driver's error
    /// text.
    fn read(&mut self) -> Result<u32, String>;

    /// Waits before the next reading.
    fn wait(&mut self);
}

/// Why the last reading was not accepted.
#[derive(Debug)]
pub enum LastFailure {
    /// The reading exceeded the adapter's limit.
    Exceeds { value: u32, maximum: u32 },
    /// The driver failed; its error text.
    Driver(String),
}

/// The readings never became plausible.
#[derive(Debug)]
pub struct ColdPowerError {
    pub last: LastFailure,
}

pub open spec fn failure_text(f: LastFailure) -> Seq<char> {
    match f {
        LastFailure::Exceeds { value, maximum } => decimal(value as nat) + " mW exceeds "@ + decimal(
            maximum as nat,
        ) + " mW"@,
        LastFailure::Driver(e) => e@,
    }
}

pub open spec fn error_text(e: ColdPowerError) -> Seq<char> {
    "Cold GPU power telemetry not ready after 10 retries: "@ + failure_text(e.last)
}

impl LastFailure {
    /// "{value} mW exceeds {maximum} mW", or the driver's own text.
    pub fn message(&self) -> (r: String)
        ensures
            r@ == failure_text(*self),
    {
        match self {
            LastFailure::Exceeds { value, maximum } => {
                let mut s = String::new();
                push_decimal(&mut s, *value as u64);
                s.append(" mW exceeds ");
                push_decimal(&mut s, *maximum as u64);
                s.append(" mW");
                s
            },
            LastFailure::Driver(e) => e.clone(),
        }
    }
}

impl ColdPowerError {
    /// The error as text, naming the last failure.
    pub fn message(&self) -> (r: String)
        ensures
            r@ == error_text(*self),
    {
        let mut s = "Cold GPU power telemetry not ready after 10 retries: ".to_owned();
        let last = self.last.message();
        s.append(last.as_str());
        s
    }
}

/// The retry loop between two readings.
#[derive(Debug)]
pub struct ColdPowerRetry {
    pub maximum: u32,
    /// Readings taken so far after the initial sample.
    pub attempts: u32,
    pub last: LastFailure,
}

/// What happens next.
#[derive(Debug)]
pub enum SettleStep {
    /// Finished: the accepted sample, or the error.
    Done(Result<u32, ColdPowerError>),
    /// Wait, read once more and hand the reading to `on_reading`.
    Retry(ColdPowerRetry),
}

impl ColdPowerRetry {
    /// Judges the initial sample: accepted when within the limit, otherwise
    /// the retries begin.
    pub fn start(initial: u32, maximum: u32) -> (r: SettleStep)
        ensures
            initial <= maximum ==> r == SettleStep::Done(Ok(initial)),
            initial > maximum ==> r == SettleStep::Retry(
                ColdPowerRetry {
                    maximum,
                    attempts: 0,
                    last: LastFailure::Exceeds { value: initial, maximum },
                },
            ),
    {
        if initial <= maximum {
            SettleStep::Done(Ok(initial))
        } else {
            SettleStep::Retry(
                ColdPowerRetry {
                    maximum,
                    attempts: 0,
                    last: LastFailure::Exceeds { value: initial, maximum },
                },
            )
        }
    }

    /// Judges one more reading: accepted when within the limit; otherwise it
    /// becomes the last failure, and after the tenth reading the loop gives
    /// up with that failure.
    pub fn on_reading(self, reading: Result<u32, String>) -> (r: SettleStep)
        requires
            self.attempts < COLD_POWER_RETRIES,
        ensures
            match reading {
                Ok(v) if v <= self.maximum => r == SettleStep::Done(Ok(v)),
                _ => {
                    let last = match reading {
                        Ok(v) => LastFailure::Exceeds { value: v, maximum: self.maximum },
                        Err(e) => LastFailure::Driver(e),
                    };
                    if self.attempts + 1 == COLD_POWER_RETRIES {
                        r == SettleStep::Done(Err(ColdPowerError { last }))
                    } else {
                        r == SettleStep::Retry(
                            ColdPowerRetry { maximum: self.maximum, attempts: (self.attempts + 1) as u32, last },
                        )
                    }
                },
            },
    {
        let maximum = self.maximum;
        let last = match reading {
            Ok(v) => {
                if v <= maximum {
                    return SettleStep::Done(Ok(v));
                }
                LastFailure::Exceeds { value: v, maximum }
            },
            Err(e) => LastFailure::Driver(e),
        };
        let attempts = self.attempts + 1;
        if attempts == COLD_POWER_RETRIES {
            SettleStep::Done(Err(ColdPowerError { last }))
        } else {
            SettleStep::Retry(ColdPowerRetry { maximum, attempts, last })
        }
    }
}

/// Validates the power sample of an explicitly requested cold wake. A sample
/// within `maximum` is returned as it is, without any further reading;
/// otherwise at most ten more readings are taken, each after a wait, and the
/// first within the limit is returned. A value above the limit is never
/// returned.
pub fn settle_cold_power<S: PowerSampler>(initial: u32, maximum: u32, sampler: &mut S) -> (r: Result<
    u32,
    ColdPowerError,
>)
    ensures
        initial <= maximum ==> r == Ok::<u32, ColdPowerError>(initial),
        r matches Ok(v) ==> v <= maximum,
        r is Err ==> initial > maximum,
{
    let mut step = ColdPowerRetry::start(initial, maximum);
    loop
        invariant
            initial <= maximum ==> step == SettleStep::Done(Ok::<u32, ColdPowerError>(initial)),
            step matches SettleStep::Done(Ok(v)) ==> v <= maximum,
            step matches SettleStep::Done(Err(_)) ==> initial > maximum,
            step matches SettleStep::Retry(st) ==> st.maximum == maximum && st.attempts
                < COLD_POWER_RETRIES && initial > maximum,
        decreases
            match step {
                SettleStep::Retry(st) => (COLD_POWER_RETRIES - st.attempts) as int,
                SettleStep::Done(_) => 0int,
            },
    {
        match step {
            SettleStep::Done(r) => {
                return r;
            },
            SettleStep::Retry(st) => {
                sampler.wait();
                let reading = sampler.read();
                step = st.on_reading(reading);
            },
        }
    }
}

} // verus!
