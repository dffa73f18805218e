use lapsphere::gpu_holders::holders_stale;
use lapsphere::gpu_holders::{device_nodes, holders_snapshot, FdDir, LinkRead, ProcDir};

fn proc_dir(pid: &str, comm: Option<&str>, fds: FdDir) -> Option<ProcDir> {
    Some(ProcDir { name: pid.to_string(), fds, comm: comm.map(|c| c.to_string()) })
}

fn link(t: &str) -> Option<LinkRead> {
    Some(LinkRead::Target(t.to_string()))
}

#[test]
fn maps_device_holders_deduplicates_and_ignores_global_control_node() {
    let entries = vec![
        proc_dir(
            "123",
            Some("browser\n"),
            FdDir::Entries(vec![link("/dev/nvidia0"), link("/dev/nvidia0"), link("/dev/nvidiactl")]),
        ),
        proc_dir("124", Some("other\n"), FdDir::Entries(vec![link("/dev/nvidia1")])),
    ];
    let got = holders_snapshot(Some(&entries), &vec!["/dev/nvidia0".to_string()], 7);
    assert_eq!(got.processes.len(), 1);
    assert_eq!(got.processes[0].pid, 123);
    assert_eq!(got.processes[0].name, "browser");
    assert_eq!(got.processes[0].device_nodes, vec!["/dev/nvidia0"]);
    assert!(got.complete);
    assert_eq!(got.sampled_at_unix_secs, 7);
}

#[test]
fn missing_proc_is_unknown_not_an_empty_success() {
    assert!(!holders_snapshot(None, &Vec::new(), 0).complete);
}

#[test]
fn holders_come_in_pid_order_with_sorted_nodes() {
    let nodes = vec!["/dev/dri/card1".to_string(), "/dev/dri/renderD128".to_string(), "/dev/nvidia0".to_string()];
    let entries = vec![
        proc_dir("900", None, FdDir::Entries(vec![link("/dev/nvidia0"), link("/dev/dri/renderD128")])),
        proc_dir("self", Some("x"), FdDir::Entries(vec![link("/dev/nvidia0")])),
        proc_dir("42", Some(" Xorg \n"), FdDir::Entries(vec![link("/dev/dri/card1"), Some(LinkRead::Vanished)])),
        proc_dir("77", Some("gone"), FdDir::Missing),
    ];
    let got = holders_snapshot(Some(&entries), &nodes, 1);
    assert!(got.complete);
    assert_eq!(got.processes.len(), 2);
    assert_eq!((got.processes[0].pid, got.processes[0].name.as_str()), (42, "Xorg"));
    assert_eq!((got.processes[1].pid, got.processes[1].name.as_str()), (900, "<exited or inaccessible>"));
    assert_eq!(got.processes[1].device_nodes, vec!["/dev/dri/renderD128", "/dev/nvidia0"]);
}

#[test]
fn unreadable_entries_make_the_snapshot_incomplete() {
    let nodes = vec!["/dev/nvidia0".to_string()];
    let a = vec![proc_dir("10", Some("a"), FdDir::Failed)];
    assert!(!holders_snapshot(Some(&a), &nodes, 0).complete);
    let b = vec![proc_dir("10", Some("a"), FdDir::Entries(vec![Some(LinkRead::Failed), link("/dev/nvidia0")]))];
    let got = holders_snapshot(Some(&b), &nodes, 0);
    assert!(!got.complete);
    assert_eq!(got.processes.len(), 1);
    let c = vec![None];
    assert!(!holders_snapshot(Some(&c), &nodes, 0).complete);
}

#[test]
fn device_nodes_of_an_adapter() {
    let drm = vec!["card1".to_string(), "card1-eDP-1".to_string(), "renderD128".to_string(), "controlD64".to_string()];
    let info = "Model: \t\t NVIDIA GeForce RTX 4060\nIRQ:   \t\t 130\nDevice Minor: \t 0\n";
    assert_eq!(
        device_nodes(Some(&drm), Some(info)),
        vec!["/dev/dri/card1", "/dev/dri/renderD128", "/dev/nvidia0"]
    );
    assert!(device_nodes(None, None).is_empty());
}

#[test]
fn holder_snapshots_are_reused_for_five_seconds() {
    assert!(holders_stale(None, 0));
    assert!(!holders_stale(Some(1_000), 5_999));
    assert!(holders_stale(Some(1_000), 6_000));
}
