use lapsphere::gpu_tier::{
    any_live_tier, canonical_bdf, gpu_poll_tier, gpu_woke_from_suspend, is_gpu_suspended_by_index,
    live_tier_keys, poll_state_key, record_gpu_observation, record_gpu_probe,
    runtime_status_by_device, suspended_decision, uncovered_devices, GpuNames, GpuPollState,
    GpuPollStates, GpuPollTier, NvmlBdfMap, NvmlDeviceSlot, SysfsNvidiaDevice, QUIET_REPROBE_SECS,
    remember_gpu_name, gpu_name_for_bdf,
};

/// The monotonic clock reading the tier tests decide at (ms).
const NOW: u64 = 10_000_000;

fn state(status: &str, pstate: Option<u8>, probed_secs_ago: Option<u64>) -> GpuPollState {
    state_with_load(status, pstate, None, probed_secs_ago)
}

fn state_with_load(
    status: &str,
    pstate: Option<u8>,
    load: Option<u32>,
    probed_secs_ago: Option<u64>,
) -> GpuPollState {
    GpuPollState {
        last_runtime_status: Some(status.to_string()),
        last_pstate: pstate,
        last_load: load,
        last_probe_ms: probed_secs_ago.map(|secs| NOW - secs * 1000),
    }
}

fn sysfs(bdf: &str, status: &str) -> SysfsNvidiaDevice {
    SysfsNvidiaDevice {
        bdf: bdf.to_string(),
        runtime_status: status.to_string(),
    }
}

fn slot(index: u32, bdf: Option<&str>) -> NvmlDeviceSlot {
    NvmlDeviceSlot {
        index,
        bdf: bdf.map(|b| b.to_string()),
    }
}

#[test]
fn suspended_never_authorizes_a_probe() {
    assert_eq!(gpu_poll_tier(None, "suspended", NOW), GpuPollTier::Suspended);
    assert_eq!(
        gpu_poll_tier(Some(&state("suspended", Some(0), Some(0))), "suspended", NOW),
        GpuPollTier::Suspended,
        "even a freshly observed P0 must not authorize a wake"
    );
}

#[test]
fn p0_to_p2_stays_live_every_tick() {
    for pstate in 0..=2u8 {
        assert_eq!(
            gpu_poll_tier(Some(&state("active", Some(pstate), Some(0))), "active", NOW),
            GpuPollTier::Live,
            "P{} must be polled live on every tick",
            pstate
        );
    }
}

#[test]
fn work_is_live_at_any_pstate_above_p0() {
    for pstate in [3u8, 5, 8] {
        assert_eq!(
            gpu_poll_tier(Some(&state_with_load("active", Some(pstate), Some(27), Some(1))), "active", NOW),
            GpuPollTier::Live,
            "P{} with utilization must be polled live",
            pstate
        );
    }
}

#[test]
fn low_utilization_noise_does_not_open_the_live_tier() {
    // NVML reports whole percents: 1 % is the largest sub-threshold reading.
    assert_eq!(
        gpu_poll_tier(Some(&state_with_load("active", Some(8), Some(1), Some(1))), "active", NOW),
        GpuPollTier::Quiet,
        "a sub-threshold blip must not hold the adapter awake"
    );
    assert_eq!(
        gpu_poll_tier(Some(&state_with_load("active", Some(3), None, Some(1))), "active", NOW),
        GpuPollTier::Quiet,
        "an unmeasurable P3 must not be pinned awake"
    );
}

#[test]
fn idle_p3_and_deeper_go_quiet_until_the_reprobe_cadence() {
    for pstate in [3u8, 5, 8] {
        assert_eq!(
            gpu_poll_tier(Some(&state_with_load("active", Some(pstate), Some(0), Some(1))), "active", NOW),
            GpuPollTier::Quiet,
            "P{} with no work must not be probed while it idles down",
            pstate
        );
    }
    assert_eq!(
        gpu_poll_tier(Some(&state("active", Some(8), Some(QUIET_REPROBE_SECS + 1))), "active", NOW),
        GpuPollTier::Live,
        "the bounded re-probe must eventually notice a ramp out of P8"
    );
}

#[test]
fn reprobe_cadence_outlives_the_autosuspend_window() {
    assert!(
        QUIET_REPROBE_SECS > 30,
        "cadence {} s would interrupt the idle-down transition",
        QUIET_REPROBE_SECS
    );
}

#[test]
fn wake_from_suspend_authorizes_one_pass() {
    assert_eq!(
        gpu_poll_tier(Some(&state("suspended", Some(8), Some(1))), "active", NOW),
        GpuPollTier::Live,
        "a suspended -> active transition must be probed"
    );
}

#[test]
fn first_ever_tick_learns_the_pstate_once() {
    assert_eq!(gpu_poll_tier(None, "active", NOW), GpuPollTier::Live);
    assert_eq!(
        gpu_poll_tier(Some(&state("active", None, Some(1))), "active", NOW),
        GpuPollTier::Quiet
    );
}

#[test]
fn the_suspended_word_is_matched_in_any_case_and_the_dwell_is_exact() {
    assert_eq!(gpu_poll_tier(None, "SUSPENDED", NOW), GpuPollTier::Suspended);
    let mut st = state_with_load("active", Some(8), Some(0), None);
    st.last_probe_ms = Some(NOW - 44_999);
    assert_eq!(gpu_poll_tier(Some(&st), "active", NOW), GpuPollTier::Quiet);
    st.last_probe_ms = Some(NOW - 45_000);
    assert_eq!(gpu_poll_tier(Some(&st), "active", NOW), GpuPollTier::Live);
    // A probe stamped after "now" counts as no time elapsed.
    st.last_probe_ms = Some(NOW + 5);
    assert_eq!(gpu_poll_tier(Some(&st), "active", NOW), GpuPollTier::Quiet);
}

#[test]
fn nvml_bus_ids_canonicalise_to_sysfs_directory_names() {
    assert_eq!(
        canonical_bdf("00000000:01:00.0", 0).as_deref(),
        Some("0000:01:00.0")
    );
    assert_eq!(
        canonical_bdf("00000000:0A:00.0", 0x0001).as_deref(),
        Some("0001:0a:00.0")
    );
    assert_eq!(canonical_bdf("no-colon-here", 0), None);
    assert_eq!(canonical_bdf("00000000:", 0), None);
}

#[test]
fn a_wide_domain_keeps_all_its_digits() {
    assert_eq!(canonical_bdf("x:01:00.0", 0x12345).as_deref(), Some("12345:01:00.0"));
}

#[test]
fn runtime_status_follows_the_bdf_not_the_list_position() {
    let gpu_a = "0000:01:00.0"; // suspended
    let gpu_b = "0000:05:00.0"; // active
    let devices = [slot(0, Some(gpu_a)), slot(1, Some(gpu_b))];

    for order in [
        vec![sysfs(gpu_a, "suspended"), sysfs(gpu_b, "active")],
        vec![sysfs(gpu_b, "active"), sysfs(gpu_a, "suspended")],
        vec![
            sysfs("0000:00:02.0", "active"),
            sysfs(gpu_b, "active"),
            sysfs(gpu_a, "suspended"),
        ],
    ] {
        let statuses = runtime_status_by_device(&devices, &order);
        assert_eq!(
            statuses[0].as_deref(),
            Some("suspended"),
            "device 0 (BDF {}) picked up another adapter's state for order {:?}",
            gpu_a,
            order.iter().map(|d| &d.bdf).collect::<Vec<_>>()
        );
        assert_eq!(statuses[1].as_deref(), Some("active"), "device 1 (BDF {})", gpu_b);
    }
}

#[test]
fn an_unlisted_bdf_yields_unknown_instead_of_a_neighbours_state() {
    let devices = [slot(0, Some("0000:02:00.0")), slot(1, Some("0000:03:00.0"))];
    let sysfs_view = [sysfs("0000:01:00.0", "suspended"), sysfs("0000:09:00.0", "active")];
    let statuses = runtime_status_by_device(&devices, &sysfs_view);
    assert_eq!(statuses, vec![None, None]);
}

#[test]
fn a_device_without_reported_bdf_only_falls_back_on_a_single_adapter_system() {
    let single = [sysfs("0000:01:00.0", "suspended")];
    assert_eq!(
        runtime_status_by_device(&[slot(0, None)], &single),
        vec![Some("suspended".to_string())]
    );
    let two = [sysfs("0000:01:00.0", "suspended"), sysfs("0000:05:00.0", "active")];
    assert_eq!(
        runtime_status_by_device(&[slot(0, None), slot(1, None)], &two),
        vec![None, None]
    );
}

#[test]
fn bdfs_are_matched_ignoring_case() {
    let statuses = runtime_status_by_device(
        &[slot(0, Some("0000:0A:00.0"))],
        &[sysfs("0000:0a:00.0", "active")],
    );
    assert_eq!(statuses, vec![Some("active".to_string())]);
}

#[test]
fn invalidated_mapping_is_reported_as_suspended_and_never_guessed() {
    let gpu_a = "0000:01:00.0";
    let gpu_b = "0000:05:00.0";
    let sysfs_view = [sysfs(gpu_a, "suspended"), sysfs(gpu_b, "active")];
    assert_eq!(suspended_decision(&sysfs_view, Some(gpu_b), 2), Some(false));
    assert_eq!(suspended_decision(&sysfs_view, Some(gpu_a), 2), Some(true));
    assert_eq!(suspended_decision(&sysfs_view, Some("0000:07:00.0"), 2), None);
    assert_eq!(suspended_decision(&sysfs_view, None, 2), None);
    assert_eq!(suspended_decision(&[sysfs(gpu_a, "suspended")], None, 1), Some(true));
}

#[test]
fn an_unattributable_index_counts_as_suspended() {
    let sysfs_view = [sysfs("0000:01:00.0", "active"), sysfs("0000:05:00.0", "active")];
    let mut map = NvmlBdfMap::new();
    assert!(is_gpu_suspended_by_index(&map, 0, &sysfs_view));
    map.remember_nvml_bdf(0, "0000:05:00.0");
    assert!(!is_gpu_suspended_by_index(&map, 0, &sysfs_view));
    assert!(is_gpu_suspended_by_index(&map, 1, &sysfs_view));
}

#[test]
fn poll_state_key_is_the_adapter_identity() {
    assert_eq!(
        poll_state_key(Some("0000:01:00.0"), 0),
        poll_state_key(Some("0000:01:00.0"), 1)
    );
    assert_ne!(
        poll_state_key(Some("0000:01:00.0"), 0),
        poll_state_key(Some("0000:05:00.0"), 0)
    );
    assert_eq!(
        poll_state_key(Some("0000:0A:00.0"), 3),
        poll_state_key(Some("0000:0a:00.0"), 3)
    );
    assert_eq!(poll_state_key(None, 3), "index:3");
    assert_eq!(poll_state_key(Some(""), 3), "index:3");
}

#[test]
fn tier_decisions_survive_a_permuted_sysfs_enumeration() {
    let gpu_a = "0000:01:00.0";
    let gpu_b = "0000:05:00.0";
    let devices = [slot(0, Some(gpu_a)), slot(1, Some(gpu_b))];
    let forward = [sysfs(gpu_a, "suspended"), sysfs(gpu_b, "active")];
    let reversed = [sysfs(gpu_b, "active"), sysfs(gpu_a, "suspended")];

    for sysfs_view in [&forward, &reversed] {
        let statuses = runtime_status_by_device(&devices, sysfs_view);
        let tiers: Vec<GpuPollTier> = statuses
            .iter()
            .enumerate()
            .map(|(position, status)| {
                let key = poll_state_key(devices[position].bdf.as_deref(), devices[position].index);
                assert_eq!(key, devices[position].bdf.clone().unwrap().to_lowercase());
                gpu_poll_tier(None, status.as_deref().unwrap_or(""), NOW)
            })
            .collect();
        assert_eq!(
            tiers,
            vec![GpuPollTier::Suspended, GpuPollTier::Live],
            "permuted enumeration changed a device's tier"
        );
    }
}

#[test]
fn observations_and_probes_drive_the_next_tier() {
    let mut states = GpuPollStates::new();
    let key = poll_state_key(Some("0000:01:00.0"), 0);
    record_gpu_observation(&mut states, &key, "suspended");
    assert!(gpu_woke_from_suspend(&states, &key));
    assert_eq!(gpu_poll_tier(states.get(&key), "active", NOW), GpuPollTier::Live);
    record_gpu_probe(&mut states, &key, "active", Some(8), Some(0), NOW);
    assert!(!gpu_woke_from_suspend(&states, &key));
    assert_eq!(gpu_poll_tier(states.get(&key), "active", NOW + 1000), GpuPollTier::Quiet);
    assert_eq!(gpu_poll_tier(states.get(&key), "active", NOW + 45_000), GpuPollTier::Live);
    // A pass that could not read the p-state keeps the last known one.
    record_gpu_probe(&mut states, &key, "active", None, None, NOW);
    let st = states.get(&key).unwrap();
    assert_eq!((st.last_pstate, st.last_load, st.last_probe_ms), (Some(8), Some(0), Some(NOW)));
    // An observation does not touch the probe clock.
    record_gpu_observation(&mut states, &key, "active");
    assert_eq!(states.get(&key).unwrap().last_probe_ms, Some(NOW));
    assert!(!gpu_woke_from_suspend(&states, "0000:05:00.0"));
}

#[test]
fn live_keys_and_the_nvml_check_follow_each_adapter() {
    let mut states = GpuPollStates::new();
    let devs = [sysfs("0000:01:00.0", "suspended"), sysfs("0000:05:00.0", "active")];
    assert_eq!(live_tier_keys(&states, &devs, NOW), vec!["0000:05:00.0".to_string()]);
    assert!(any_live_tier(&states, &devs, NOW));
    record_gpu_probe(&mut states, "0000:05:00.0", "active", Some(8), Some(0), NOW);
    assert!(live_tier_keys(&states, &devs, NOW + 10).is_empty());
    assert!(!any_live_tier(&states, &devs, NOW + 10));
}

#[test]
fn adapters_nvml_does_not_identify_are_reported_from_sysfs() {
    let devs = [
        sysfs("0000:01:00.0", "active"),
        sysfs("0000:05:00.0", "active"),
        sysfs("0000:09:00.0", "suspended"),
    ];
    let slots = [slot(0, Some("0000:05:00.0")), slot(1, None)];
    assert_eq!(uncovered_devices(&slots, &devs), vec![0, 2]);
    let slots = [slot(0, Some("0000:01:00.0")), slot(1, Some("0000:09:00.0")), slot(2, Some("0000:05:00.0"))];
    assert!(uncovered_devices(&slots, &devs).is_empty());
}

#[test]
fn the_bdf_map_remembers_and_remaps() {
    let mut map = NvmlBdfMap::new();
    assert_eq!(map.bdf_for_nvml_index(0), None);
    map.remember_nvml_bdf(0, "0000:0A:00.0");
    assert_eq!(map.bdf_for_nvml_index(0).as_deref(), Some("0000:0a:00.0"));
    assert_eq!(map.nvml_index_for_bdf("0000:0a:00.0"), Some(0));
    assert_eq!(map.nvml_index_for_bdf("0000:0A:00.0"), Some(0));
    map.remember_nvml_bdf(0, "0000:05:00.0");
    assert_eq!(map.bdf_for_nvml_index(0).as_deref(), Some("0000:05:00.0"));
    assert_eq!(map.nvml_index_for_bdf("0000:0a:00.0"), None);
}

#[test]
fn names_are_found_by_bdf_in_any_case() {
    let mut names = GpuNames::new();
    remember_gpu_name(&mut names, "0000:0A:00.0", "GeForce RTX 4060");
    assert_eq!(gpu_name_for_bdf(&names, "0000:0a:00.0").as_deref(), Some("GeForce RTX 4060"));
    assert_eq!(gpu_name_for_bdf(&names, "0000:01:00.0"), None);
}
