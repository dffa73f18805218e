use lapsphere::vram::rm_status_name;
use lapsphere::vram::{bandwidth_multiplier, ram_type, resolve_bus_width, vram_identity, vram_vendor};

#[test]
fn frame_buffer_codes_decode_to_names() {
    assert_eq!(ram_type(0x0B), "GDDR6");
    assert_eq!(ram_type(0x12), "GDDR7");
    assert_eq!(ram_type(0x99), "Unknown");
    assert_eq!(vram_vendor(0x02), "Samsung");
    assert_eq!(vram_vendor(0x07), "Hynix");
    assert_eq!(vram_vendor(0), "Unknown");
}

#[test]
fn implausible_bus_widths_are_dropped() {
    assert_eq!(vram_identity(Some(0x0C), Some(1), Some(192)), (Some("GDDR6X".to_string()), Some("Micron".to_string()), Some(192)));
    assert_eq!(vram_identity(None, None, Some(93)).2, None);
    assert_eq!(vram_identity(None, None, Some(2048)).2, None);
    assert_eq!(vram_identity(None, None, Some(0)).2, None);
    assert_eq!(vram_identity(None, None, None), (None, None, None));
}

#[test]
fn nvml_bus_width_fills_in() {
    assert_eq!(resolve_bus_width(Some(128), Some(256)), Some(128));
    assert_eq!(resolve_bus_width(None, Some(256)), Some(256));
    assert_eq!(resolve_bus_width(Some(0), Some(0)), None);
}

#[test]
fn bandwidth_multipliers() {
    assert_eq!(bandwidth_multiplier(Some("GDDR6X")), 16);
    assert_eq!(bandwidth_multiplier(Some("GDDR6")), 8);
    assert_eq!(bandwidth_multiplier(Some("GDDR5X")), 4);
    assert_eq!(bandwidth_multiplier(Some("HBM2")), 2);
    assert_eq!(bandwidth_multiplier(None), 2);
}

#[test]
fn rm_status_codes_are_named_from_the_driver_table() {
    assert_eq!(rm_status_name(0x1e), "NV_ERR_INVALID_ADDRESS");
    assert_eq!(rm_status_name(0x56), "NV_ERR_NOT_SUPPORTED");
    assert_eq!(rm_status_name(0xffff), "NV_ERR_GENERIC");
    assert_eq!(rm_status_name(0x01), "UNKNOWN_ERROR");
    assert_eq!(rm_status_name(0), "UNKNOWN_ERROR");
}
