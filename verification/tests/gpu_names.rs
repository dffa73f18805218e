use lapsphere::gpu_names::{get_amd_gpu_name, get_intel_gpu_name, integrated_gpu_name, same_text};

#[test]
fn known_integrated_gpus() {
    assert_eq!(get_amd_gpu_name("0x15bf"), Some("AMD Radeon 780M".to_string()));
    assert_eq!(get_amd_gpu_name("0x9999"), None);
    assert_eq!(get_intel_gpu_name("0x9a60"), Some("Intel Iris Xe Graphics".to_string()));
    assert_eq!(get_intel_gpu_name("0xa7a1"), Some("Intel Iris Xe Graphics (Alder Lake)".to_string()));
    assert_eq!(get_intel_gpu_name("0x0000"), None);
}

#[test]
fn drm_card_names() {
    assert_eq!(integrated_gpu_name("0x10de", "0x2860", 0), None);
    assert_eq!(integrated_gpu_name("0x1002", "0x1636", 1), Some("AMD Radeon Graphics (Renoir)".to_string()));
    assert_eq!(integrated_gpu_name("0x1002", "0x7480", 1), Some("AMD iGPU".to_string()));
    assert_eq!(integrated_gpu_name("0x8086", "unknown", 0), Some("Intel iGPU".to_string()));
    assert_eq!(integrated_gpu_name("0x1af4", "0x1050", 3), Some("GPU 3".to_string()));
    assert!(same_text("abc", "abc") && !same_text("abc", "abd"));
}
