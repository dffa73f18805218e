use lapsphere::cpu_info::{
    detect_cpu_capabilities, get_cpu_count, is_boost_enabled, is_smt_enabled, load_ticks, parse_cpu_stats,
    read_available_epp_options, read_available_governors, CpuControlFiles, CpuStats,
};

fn stats(user: u64, nice: u64, system: u64, idle: u64, iowait: u64, irq: u64, softirq: u64) -> CpuStats {
    CpuStats { user, nice, system, idle, iowait, irq, softirq }
}

#[test]
fn proc_stat_lines_per_cpu() {
    let stat = "cpu  10 0 10 100 0 0 0 0 0 0\ncpu0 4 1 2 50 3 1 1 0 0 0\ncpu1 6 0 8 50 0 0 0\nintr 12345\n";
    let parsed = parse_cpu_stats(stat).unwrap();
    assert_eq!(parsed, vec![(0, stats(4, 1, 2, 50, 3, 1, 1)), (1, stats(6, 0, 8, 50, 0, 0, 0))]);
    assert_eq!(parse_cpu_stats("cpu0 1 2 x 4 5 6 7\n"), None);
    assert_eq!(parse_cpu_stats("cpu0 1 2 3\n"), Some(Vec::new()));
}

#[test]
fn totals_and_load_ticks() {
    let a = stats(4, 1, 2, 50, 3, 1, 1);
    assert_eq!(a.total(), 62);
    assert_eq!(a.work(), 9);
    let b = stats(14, 1, 7, 80, 3, 1, 1);
    assert_eq!(load_ticks(&a, &b), (15, 45));
    assert_eq!(load_ticks(&b, &a), (0, 0));
}

#[test]
fn cpu_count_counts_processor_lines() {
    let info = "processor\t: 0\nmodel name\t: X\n\nprocessor\t: 1\nmodel name\t: X\n";
    assert_eq!(get_cpu_count(info), 2);
    assert_eq!(get_cpu_count(""), 0);
}

#[test]
fn governor_and_preference_lists() {
    assert_eq!(read_available_governors("performance powersave\n"), vec!["performance", "powersave"]);
    assert_eq!(read_available_epp_options(Some("default performance\n")), vec!["default", "performance"]);
    assert_eq!(
        read_available_epp_options(None),
        vec!["performance", "balance_performance", "balance_power", "power"]
    );
}

#[test]
fn boost_and_smt_state() {
    assert!(is_boost_enabled(Some("1\n"), Some("1")));
    assert!(!is_boost_enabled(Some("0\n"), Some("0")));
    assert!(is_boost_enabled(None, Some("0\n")));
    assert!(!is_boost_enabled(None, None));
    assert!(is_smt_enabled(None));
    assert!(is_smt_enabled(Some("on\n")));
    assert!(!is_smt_enabled(Some("forceoff")));
}

#[test]
fn capabilities_from_existing_files() {
    let f = CpuControlFiles {
        cpufreq_boost: false,
        intel_no_turbo: true,
        cpuinfo_max_freq: true,
        cpuinfo_min_freq: false,
        scaling_driver: false,
        policy0_scaling_driver: true,
        energy_performance_preference: true,
        scaling_governor: true,
        smt_control: false,
        scaling_min_freq: true,
        scaling_max_freq: true,
        scaling_available_governors: false,
        amd_pstate_status: false,
        intel_pstate_status: true,
    };
    let c = detect_cpu_capabilities(&f);
    assert!(c.has_boost && c.has_scaling_driver && c.has_intel_pstate && c.has_cpuinfo_max_freq);
    assert!(!c.has_smt && !c.has_amd_pstate && !c.has_cpuinfo_min_freq && !c.has_available_governors);
}
