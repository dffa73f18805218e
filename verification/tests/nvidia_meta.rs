use lapsphere::nvidia_meta::{metadata_refresh, pstate_label, pstate_value, MetadataPresence, MetadataRefresh};

fn all_known() -> MetadataPresence {
    MetadataPresence {
        vram_type: true,
        vram_vendor: true,
        vram_bus_width: true,
        core_clock_range: true,
        memory_clock_range: true,
        core_offset_limits: true,
        memory_offset_limits: true,
    }
}

#[test]
fn performance_state_labels() {
    assert_eq!(pstate_label(Some(0)), "P0");
    assert_eq!(pstate_label(Some(12)), "P12");
    assert_eq!(pstate_label(None), "unknown");
    assert_eq!(pstate_value(Some(8)), 8);
    assert_eq!(pstate_value(None), 99);
}

#[test]
fn metadata_is_fetched_only_where_missing() {
    assert_eq!(metadata_refresh(None), MetadataRefresh::Initialize);
    assert_eq!(metadata_refresh(Some(all_known())), MetadataRefresh::UseCache);
    let mut m = all_known();
    m.memory_clock_range = false;
    m.vram_type = false;
    assert_eq!(
        metadata_refresh(Some(m)),
        MetadataRefresh::Fill {
            vram: false,
            core_clock_range: false,
            memory_clock_range: true,
            core_offset_limits: false,
            memory_offset_limits: false,
        }
    );
    let none_vram = MetadataPresence { vram_type: false, vram_vendor: false, vram_bus_width: false, ..all_known() };
    assert_eq!(
        metadata_refresh(Some(none_vram)),
        MetadataRefresh::Fill {
            vram: true,
            core_clock_range: false,
            memory_clock_range: false,
            core_offset_limits: false,
            memory_offset_limits: false,
        }
    );
}
