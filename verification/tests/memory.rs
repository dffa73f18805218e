use lapsphere::memory::parse_dmidecode_memory;

#[test]
fn dmidecode_type_and_first_known_speed() {
    let out = "Memory Device\n\tSize: 16 GB\n\tType: DDR5\n\tSpeed: Unknown\n\tConfigured Memory Speed: 5600 MT/s\n\
               Memory Device\n\tType: DDR5\n\tSpeed: 4800 MT/s\n";
    assert_eq!(parse_dmidecode_memory(out), (Some("DDR5".to_string()), Some(5600)));
}

#[test]
fn lpddr_and_missing_speed() {
    assert_eq!(parse_dmidecode_memory("\tType: LPDDR5\n\tSpeed: \n"), (Some("LPDDR5".to_string()), None));
    assert_eq!(parse_dmidecode_memory("\tType Detail: Synchronous\n"), (None, None));
    assert_eq!(parse_dmidecode_memory(""), (None, None));
}
