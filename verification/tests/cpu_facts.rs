use lapsphere::cpu_facts::{amd_dgpu_count, cpu_name, cpu_topology, is_amd_cpu, scheduler_name, DrmEntry};

#[test]
fn model_name_comes_from_the_first_model_name_line() {
    let info = "processor\t: 0\nvendor_id\t: AuthenticAMD\nmodel name\t: AMD Ryzen 7 7840HS w/ Radeon 780M Graphics\n";
    assert_eq!(cpu_name(Some(info)), "AMD Ryzen 7 7840HS w/ Radeon 780M Graphics");
    assert_eq!(cpu_name(Some("processor : 0\n")), "Unknown CPU");
    assert_eq!(cpu_name(None), "Unknown CPU");
}

#[test]
fn topology_from_lscpu_with_fallbacks() {
    let lscpu = "Architecture:            x86_64\n  CPU(s):                  16\n  Thread(s) per core:    2\n  Core(s) per socket:    8\n  Socket(s):             1\n";
    assert_eq!(cpu_topology(Some(lscpu), None), (8, 16));
    let cpuinfo = "processor\t: 0\nprocessor\t: 1\nprocessor\t: 2\nprocessor\t: 3\n";
    assert_eq!(cpu_topology(None, Some(cpuinfo)), (4, 4));
    assert_eq!(cpu_topology(None, None), (1, 1));
    assert_eq!(cpu_topology(Some("CPU(s): 12\n"), None), (12, 12));
}

#[test]
fn amd_vendor_and_discrete_amd_gpus() {
    assert!(is_amd_cpu(Some("processor : 0\nvendor_id : AuthenticAMD\n")));
    assert!(!is_amd_cpu(Some("vendor_id : GenuineIntel\nflags : AuthenticAMD\n")));
    assert!(!is_amd_cpu(None));
    let e = |n: &str, v: Option<&str>| DrmEntry { name: n.to_string(), vendor: v.map(|s| s.to_string()) };
    let drm = vec![
        e("card0", Some("0x1002\n")),
        e("card0-eDP-1", Some("0x1002\n")),
        e("card1", Some("0x1002\n")),
        e("card2", Some("0x10de\n")),
        e("renderD128", Some("0x1002\n")),
    ];
    assert_eq!(amd_dgpu_count(&drm), 1);
    assert_eq!(amd_dgpu_count(&vec![e("card0", Some("0x1002"))]), 0);
}

#[test]
fn scheduler_names() {
    assert_eq!(scheduler_name(Some("GENTLE_FAIR_SLEEPERS EEVDF\n")), "EEVDF");
    assert_eq!(scheduler_name(Some("GENTLE_FAIR_SLEEPERS\n")), "CFS");
    assert_eq!(scheduler_name(None), "CFS");
}
