use lapsphere::gpu_activity::{
    is_structural_holder, now, record_memory, record_memory_at, GpuMemoryCache,
};

/// A process id that is not one of the holders the tests name.
const OWN_PID: u32 = 31337;

#[test]
fn memory_snapshot_preserves_free_separately_from_used_and_age() {
    let pci = "0000:aa:00.0";
    let mut cache = GpuMemoryCache::new();
    record_memory(&mut cache, pci, 700 * 1048576, 200 * 1048576, 1024 * 1048576);
    let memory = cache.get(pci).unwrap();
    assert_eq!(memory.free_mib, 700); // reserved VRAM is NOT free
    assert_eq!(memory.used_mib, 200);
    assert_eq!(memory.total_mib, 1024);
    assert!(memory.sampled_at_unix_secs <= now());
}

#[test]
fn memory_snapshot_rounds_down_to_whole_mib_and_replaces_the_previous_one() {
    let mut cache = GpuMemoryCache::new();
    record_memory_at(&mut cache, "0000:01:00.0", 1048575, 1048577, 3 * 1048576, 42);
    let m = cache.get("0000:01:00.0").unwrap();
    assert_eq!((m.free_mib, m.used_mib, m.total_mib, m.sampled_at_unix_secs), (0, 1, 3, 42));
    record_memory_at(&mut cache, "0000:01:00.0", 2 * 1048576, 0, 3 * 1048576, 43);
    let m = cache.get("0000:01:00.0").unwrap();
    assert_eq!((m.free_mib, m.used_mib, m.sampled_at_unix_secs), (2, 0, 43));
    assert!(cache.get("0000:02:00.0").is_none());
}

#[test]
fn now_is_after_2020() {
    assert!(now() > 1_577_836_800);
}

#[test]
fn real_holders_survive_the_filter() {
    assert!(!is_structural_holder("lapsphere-daemo", 4242, OWN_PID));
    assert!(!is_structural_holder("thorium", 1234, OWN_PID));
    assert!(!is_structural_holder("glxgears", 1234, OWN_PID));
    assert!(!is_structural_holder("", 1234, OWN_PID));
}

#[test]
fn non_blocking_holders_are_dropped() {
    assert!(is_structural_holder("Xorg", 1234, OWN_PID));
    // comm is truncated to 15 bytes by the kernel.
    assert!(is_structural_holder("nvidia-persiste", 1234, OWN_PID));
    assert!(is_structural_holder("nvidia-persistenced", 1234, OWN_PID));
    // The monitoring daemon's own device handle (its own PID).
    assert!(is_structural_holder("lapsphere-daemo", OWN_PID, OWN_PID));
}
