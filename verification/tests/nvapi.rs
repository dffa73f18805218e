use lapsphere::nvapi::{mask_search_start, thermal_reading_in_range, MaskSearch, NvApiThermals};

fn thermals_with(index: usize, raw: i32) -> NvApiThermals {
    let mut values = [0i32; 40];
    values[index] = raw;
    NvApiThermals { version: 0, mask: 0, values }
}

#[test]
fn hotspot_and_vram_readings_in_whole_degrees() {
    let t = thermals_with(9, 65 * 256 + 200);
    assert_eq!(t.hotspot(), Some(65));
    assert_eq!(t.vram(), None);
    let t = thermals_with(15, 80 * 256);
    assert_eq!(t.vram(), Some(80));
    assert_eq!(t.hotspot(), None);
}

#[test]
fn readings_outside_zero_to_255_degrees_are_dropped() {
    assert_eq!(thermals_with(9, 255).hotspot(), None);
    assert_eq!(thermals_with(9, 256).hotspot(), Some(1));
    assert_eq!(thermals_with(9, 65279).hotspot(), Some(254));
    assert_eq!(thermals_with(9, 65280).hotspot(), None);
    assert_eq!(thermals_with(9, -512).hotspot(), None);
    assert_eq!(thermals_with(0, 512).get_value(40), None);
    assert_eq!(thermals_with(39, 512).get_value(39), Some(2));
}

#[test]
fn raw_reading_range_check() {
    assert!(!thermal_reading_in_range(0));
    assert!(thermal_reading_in_range(1));
    assert!(thermal_reading_in_range(65279));
    assert!(!thermal_reading_in_range(65280));
    assert!(!thermal_reading_in_range(-1));
}

/// Runs the search against a driver that accepts the single bits below
/// `limit` (and all of them when `limit` is 32).
fn search(opening_accepted: bool, limit: u32) -> (u32, Vec<u32>) {
    let mut tried = Vec::new();
    let mut step = mask_search_start(opening_accepted);
    loop {
        match step {
            MaskSearch::Found(m) => return (m, tried),
            MaskSearch::Probe(p) => {
                tried.push(p.mask());
                let bit = p.bit();
                step = p.answer(bit < limit);
            }
        }
    }
}

#[test]
fn mask_is_every_bit_below_the_first_refused_one() {
    let (mask, tried) = search(true, 3);
    assert_eq!(mask, 0b111);
    assert_eq!(tried, vec![1, 2, 4, 8]);
    let (mask, _) = search(true, 0);
    assert_eq!(mask, 0);
    let (mask, tried) = search(true, 31);
    assert_eq!(mask, 0x7fff_ffff);
    assert_eq!(tried.len(), 32);
}

#[test]
fn mask_search_when_every_bit_is_accepted_or_the_opening_call_fails() {
    let (mask, tried) = search(true, 32);
    assert_eq!(mask, u32::MAX);
    assert_eq!(mask as i32, -1);
    assert_eq!(tried.len(), 32);
    assert_eq!(tried[31], 0x8000_0000);
    let (mask, tried) = search(false, 32);
    assert_eq!(mask, 1);
    assert!(tried.is_empty());
}
