use lapsphere::storage::{device_path, disk_size_gb, is_storage_block, parse_block_stat, sector_size, storage_model};

#[test]
fn listed_blocks_and_names() {
    assert!(is_storage_block("nvme0n1"));
    assert!(!is_storage_block("loop3"));
    assert!(!is_storage_block("ram0"));
    assert_eq!(device_path("sda"), "/dev/sda");
    assert_eq!(storage_model(Some("Samsung SSD 980 PRO 1TB   \n"), "nvme0n1"), "Samsung SSD 980 PRO 1TB");
    assert_eq!(storage_model(None, "sda"), "sda");
}

#[test]
fn sizes() {
    assert_eq!(sector_size(Some("4096\n")), 4096);
    assert_eq!(sector_size(None), 512);
    assert_eq!(sector_size(Some("x")), 512);
    assert_eq!(disk_size_gb(Some("1953525168\n")), 1000);
    assert_eq!(disk_size_gb(None), 0);
}

#[test]
fn block_stat_counters() {
    let stat = "  118303     3386  9466106    21043   104616    73430  4966496    74391        0   100876   113519\n";
    assert_eq!(parse_block_stat(stat), Some((118303, 9466106, 104616, 4966496)));
    assert_eq!(parse_block_stat("1 2 3 4 5 6"), None);
    assert_eq!(parse_block_stat("1 2 x 4 5 6 7"), None);
}
