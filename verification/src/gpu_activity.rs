//! Passive inventory of what uses a GPU: VRAM snapshots taken during live
//! passes, and which device holders count as structural (they never keep the
//! dGPU from suspending).
use std::time::{Duration, SystemTime, SystemTimeError};
use vstd::prelude::*;
use crate::gpu_tier::KeyedTable;
use crate::text::starts_with;

verus! {

#[verifier::external_type_specification]
#[verifier::external_body]
pub struct ExSystemTime(SystemTime);

#[verifier::external_type_specification]
#[verifier::external_body]
pub struct ExSystemTimeError(SystemTimeError);

/// Trusted: calls `SystemTime::now`, the current wall-clock time; nothing is
/// claimed of it.
#[verifier::external_body]
fn system_now() -> SystemTime {
    SystemTime::now()
}

/// Trusted: calls `SystemTime::duration_since` with `UNIX_EPOCH`, which fails
/// when the clock is set before 1970; nothing is claimed of the result.
#[verifier::external_body]
fn since_unix_epoch(t: &SystemTime) -> Result<Duration, SystemTimeError> {
    t.duration_since(std::time::UNIX_EPOCH)
}

/// Trusted: calls `Duration::as_secs`, the whole seconds of a duration;
/// nothing is claimed of it.
#[verifier::external_body]
fn whole_secs(d: &Duration) -> u64 {
    d.as_secs()
}

/// Seconds since the Unix epoch, or 0 when the clock is set before it.
pub fn now() -> (r: u64) {
    let t = system_now();
    match since_unix_epoch(&t) {
        Ok(d) => whole_secs(&d),
        Err(_) => 0,
    }
}

/// VRAM use of one adapter as NVML reported it, in MiB.
#[derive(Clone, Copy, Debug, PartialEq, Eq, Structural)]
pub struct GpuMemorySnapshot {
    pub free_mib: u64,
    pub used_mib: u64,
    pub total_mib: u64,
    pub sampled_at_unix_secs: u64,
}

impl View for GpuMemorySnapshot {
    type V = GpuMemorySnapshot;

    open spec fn view(&self) -> GpuMemorySnapshot {
        *self
    }
}

/// Bytes in a MiB.
pub const MIB: u64 = 1048576;

/// VRAM snapshots keyed by PCI BDF.
pub type GpuMemoryCache = KeyedTable<GpuMemorySnapshot>;

/// The snapshot of NVML's byte counts, taken at `at`. Free and used are kept
/// apart: reserved VRAM is neither.
pub open spec fn memory_snapshot(free: u64, used: u64, total: u64, at: u64) -> GpuMemorySnapshot {
    GpuMemorySnapshot {
        free_mib: free / MIB,
        used_mib: used / MIB,
        total_mib: total / MIB,
        sampled_at_unix_secs: at,
    }
}

/// Records NVML's memory counters (bytes) for adapter `pci`, stamped `at`.
pub fn record_memory_at(cache: &mut GpuMemoryCache, pci: &str, free: u64, used: u64, total: u64, at: u64)
    ensures
        final(cache)@ == old(cache)@.insert(pci@, memory_snapshot(free, used, total, at)),
{
    let snapshot = GpuMemorySnapshot {
        free_mib: free / MIB,
        used_mib: used / MIB,
        total_mib: total / MIB,
        sampled_at_unix_secs: at,
    };
    cache.insert(pci, snapshot);
}

/// Records NVML's memory counters (bytes) for adapter `pci`, stamped with the
/// current time.
pub fn record_memory(cache: &mut GpuMemoryCache, pci: &str, free: u64, used: u64, total: u64)
    ensures
        exists|at: u64| final(cache)@ == old(cache)@.insert(pci@, memory_snapshot(free, used, total, at)),
{
    let at = now();
    record_memory_at(cache, pci, free, used, total, at);
}

/// Holders that never keep the dGPU from suspending: the X server, the
/// persistence daemon (the kernel truncates `comm` to 15 bytes), and this
/// daemon's own device handle.
pub open spec fn structural_holder(comm: Seq<char>, pid: u32, own_pid: u32) -> bool {
    ||| comm == "Xorg"@
    ||| starts_with(comm, "nvidia-persiste"@)
    ||| pid == own_pid
}

/// Does the holder `comm`/`pid` belong to the structural set? `own_pid` is the
/// process id of this daemon.
pub fn is_structural_holder(comm: &str, pid: u32, own_pid: u32) -> (r: bool)
    ensures
        r == structural_holder(comm@, pid, own_pid),
{
    if pid == own_pid {
        return true;
    }
    let c = crate::text::chars_of(comm);
    let x = crate::text::chars_of("Xorg");
    let p = crate::text::chars_of("nvidia-persiste");
    crate::text::chars_eq(c.as_slice(), x.as_slice()) || crate::text::starts_with_chars(
        c.as_slice(),
        p.as_slice(),
    )
}

} // verus!
