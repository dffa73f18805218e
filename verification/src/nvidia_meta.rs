//! What the NVIDIA pass reports of a performance state, and which cached
//! adapter metadata it must fetch again.
use vstd::prelude::*;
use crate::text::{decimal, push_decimal, push_text};

verus! {

/// The label of a performance state: "P<n>" for P0..P15, "unknown" for a
/// state NVML reports as unknown.
pub fn pstate_label(pstate: Option<u8>) -> (r: String)
    requires
        pstate matches Some(n) ==> n <= 15,
    ensures
        r@ == match pstate {
            Some(n) => "P"@ + decimal(n as nat),
            None => "unknown"@,
        },
{
    let mut s = String::new();
    match pstate {
        Some(n) => {
            push_text(&mut s, "P");
            push_decimal(&mut s, n as u64);
        },
        None => push_text(&mut s, "unknown"),
    }
    s
}

/// The number the poll state records for a performance state (99 for
/// unknown).
pub fn pstate_value(pstate: Option<u8>) -> (r: u8)
    ensures
        r == match pstate {
            Some(n) => n,
            None => 99u8,
        },
{
    match pstate {
        Some(n) => n,
        None => 99,
    }
}

/// Which cached metadata fields of an adapter are known.
#[derive(Debug, Clone, Copy, PartialEq, Eq, Structural)]
pub struct MetadataPresence {
    pub vram_type: bool,
    pub vram_vendor: bool,
    pub vram_bus_width: bool,
    pub core_clock_range: bool,
    pub memory_clock_range: bool,
    pub core_offset_limits: bool,
    pub memory_offset_limits: bool,
}

/// What a pass fetches again for an adapter.
#[derive(Debug, Clone, Copy, PartialEq, Eq, Structural)]
pub enum MetadataRefresh {
    /// Nothing cached yet: the full first detection.
    Initialize,
    /// The cache is complete: use it.
    UseCache,
    /// Fetch again what is missing: the VRAM identity only when none of it
    /// is known, each range and each pair of offset limits that is missing.
    Fill {
        vram: bool,
        core_clock_range: bool,
        memory_clock_range: bool,
        core_offset_limits: bool,
        memory_offset_limits: bool,
    },
}

pub open spec fn refresh_of(cached: Option<MetadataPresence>) -> MetadataRefresh {
    match cached {
        None => MetadataRefresh::Initialize,
        Some(m) => {
            let vram = !m.vram_type && !m.vram_vendor && !m.vram_bus_width;
            let ranges = !m.core_clock_range || !m.memory_clock_range;
            let offsets = !m.core_offset_limits || !m.memory_offset_limits;
            if vram || ranges || offsets {
                MetadataRefresh::Fill {
                    vram,
                    core_clock_range: !m.core_clock_range,
                    memory_clock_range: !m.memory_clock_range,
                    core_offset_limits: !m.core_offset_limits,
                    memory_offset_limits: !m.memory_offset_limits,
                }
            } else {
                MetadataRefresh::UseCache
            }
        },
    }
}

/// Decides what to fetch again for an adapter (see `refresh_of`).
pub fn metadata_refresh(cached: Option<MetadataPresence>) -> (r: MetadataRefresh)
    ensures
        r == refresh_of(cached),
{
    match cached {
        None => MetadataRefresh::Initialize,
        Some(m) => {
            let vram = !m.vram_type && !m.vram_vendor && !m.vram_bus_width;
            let ranges = !m.core_clock_range || !m.memory_clock_range;
            let offsets = !m.core_offset_limits || !m.memory_offset_limits;
            if vram || ranges || offsets {
                MetadataRefresh::Fill {
                    vram,
                    core_clock_range: !m.core_clock_range,
                    memory_clock_range: !m.memory_clock_range,
                    core_offset_limits: !m.core_offset_limits,
                    memory_offset_limits: !m.memory_offset_limits,
                }
            } else {
                MetadataRefresh::UseCache
            }
        },
    }
}

/// Known metadata is never fetched again: a refresh asks only for what the
/// cache lacks.
pub proof fn lemma_known_metadata_is_not_refetched(m: MetadataPresence)
    ensures
        refresh_of(Some(m)) matches MetadataRefresh::Fill { vram, core_clock_range, memory_clock_range, core_offset_limits, memory_offset_limits } ==> {
            &&& (vram ==> !m.vram_type && !m.vram_vendor && !m.vram_bus_width)
            &&& (core_clock_range ==> !m.core_clock_range)
            &&& (memory_clock_range ==> !m.memory_clock_range)
            &&& (core_offset_limits ==> !m.core_offset_limits)
            &&& (memory_offset_limits ==> !m.memory_offset_limits)
        },
        refresh_of(Some(m)) != MetadataRefresh::Initialize,
{
}

} // verus!
