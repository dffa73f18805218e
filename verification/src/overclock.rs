//! The dynamic GPU overclock job: when it may act and when the core offset
//! is sent to the driver.
//!
//! The offset itself is computed from floating-point telemetry by the
//! caller. What is decided here: whether the job is enabled at all, whether
//! the GPU is in a state to be tuned, and whether a computed offset must be
//! sent (only when it differs from the one last applied, so an unchanged
//! offset never reaches the driver again).
use vstd::prelude::*;
use crate::text::{chars_of, contains_chars, contains_seq, lowercase_of, to_lowercase};

verus! {

/// The offsets the job applied last, as the GUI shows them (MHz).
#[derive(Debug, Clone, Copy, PartialEq, Eq, Structural)]
pub struct GpuOverclockStats {
    pub freq_offset: i32,
    pub drain_offset: i32,
    pub power_offset: i32,
    pub total_offset: i32,
}

/// What the job does this tick, given the profile's switches.
#[derive(Debug, Clone, Copy, PartialEq, Eq, Structural)]
pub enum OverclockMode {
    /// Dynamic tuning is off: stats and the remembered offset are cleared;
    /// with manual clocks off, the core offset is also reset to 0.
    Off { reset_core_offset: bool },
    /// Dynamic tuning is on.
    On,
}

/// Dynamic tuning runs only with both advanced control and manual clocks.
pub fn overclock_mode(advanced_control: bool, manual_clocks: bool) -> (r: OverclockMode)
    ensures
        (advanced_control && manual_clocks) ==> r == OverclockMode::On,
        !(advanced_control && manual_clocks) ==> r == (OverclockMode::Off {
            reset_core_offset: !manual_clocks,
        }),
{
    if !advanced_control || !manual_clocks {
        OverclockMode::Off { reset_core_offset: !manual_clocks }
    } else {
        OverclockMode::On
    }
}

/// May the GPU with this status word be tuned? Not when suspended, and only
/// when it reports a performance state ("P…").
pub open spec fn tunable_status(status: Seq<char>) -> bool {
    let s = lowercase_of(status);
    !contains_seq(s, "suspended"@) && s.len() > 0 && s[0] == 'p'
}

pub fn gpu_is_tunable(status: &str) -> (r: bool)
    ensures
        r == tunable_status(status@),
{
    let lower = to_lowercase(status);
    let s = chars_of(lower.as_str());
    let word = chars_of("suspended");
    if contains_chars(s.as_slice(), word.as_slice()) {
        return false;
    }
    s.len() > 0 && s[0] == 'p'
}

/// What happens to the core offset this tick.
#[derive(Debug, Clone, Copy, PartialEq, Eq, Structural)]
pub struct OffsetStep {
    /// The offset to send to the driver, if any.
    pub send: Option<i32>,
    /// The offset remembered as applied afterwards.
    pub last_applied: Option<i32>,
}

/// Outside P0 the dynamic offset is cleared (sent as 0 once); in P0 the
/// computed offset is sent. Either way an offset equal to the one last
/// applied is not sent again.
pub open spec fn offset_step_of(in_p0: bool, last_applied: Option<i32>, target: i32) -> OffsetStep {
    let want = if in_p0 {
        target
    } else {
        0
    };
    if last_applied == Some(want) {
        OffsetStep { send: None, last_applied }
    } else {
        OffsetStep { send: Some(want), last_applied: Some(want) }
    }
}

/// Decides whether the core offset is sent this tick (see
/// `offset_step_of`).
pub fn offset_step(in_p0: bool, last_applied: Option<i32>, target: i32) -> (r: OffsetStep)
    ensures
        r == offset_step_of(in_p0, last_applied, target),
{
    let want = if in_p0 {
        target
    } else {
        0
    };
    if last_applied == Some(want) {
        OffsetStep { send: None, last_applied }
    } else {
        OffsetStep { send: Some(want), last_applied: Some(want) }
    }
}

/// An offset is never sent twice in a row: after a step, the same step
/// sends nothing and changes nothing.
pub proof fn lemma_unchanged_offset_is_not_resent(in_p0: bool, last_applied: Option<i32>, target: i32)
    ensures
        offset_step_of(in_p0, offset_step_of(in_p0, last_applied, target).last_applied, target).send
            is None,
        offset_step_of(in_p0, offset_step_of(in_p0, last_applied, target).last_applied, target).last_applied
            == offset_step_of(in_p0, last_applied, target).last_applied,
{
}

/// The offsets shown as applied now (frequency, drain, power, total): the
/// dynamic job's when it has run, else only the total, which is the
/// hand-set core offset (already rounded to whole MHz) where there is one.
pub fn current_gpu_offsets(stats: Option<GpuOverclockStats>, manual_core_offset: Option<i32>) -> (r: (
    Option<i32>,
    Option<i32>,
    Option<i32>,
    Option<i32>,
))
    ensures
        r == match stats {
            Some(s) => (Some(s.freq_offset), Some(s.drain_offset), Some(s.power_offset), Some(s.total_offset)),
            None => (None, None, None, manual_core_offset),
        },
{
    match stats {
        Some(s) => (Some(s.freq_offset), Some(s.drain_offset), Some(s.power_offset), Some(s.total_offset)),
        None => (None, None, None, manual_core_offset),
    }
}

} // verus!
