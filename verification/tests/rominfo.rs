use rusuper::rominfo::{HeaderData, RomMemoryMap, RomSize};

#[test]
fn rominfo_constructors() {
    let map = RomMemoryMap::new();
    assert_eq!(RomMemoryMap::from(RomSize::HiRom), map);
    assert_eq!(RomMemoryMap::from(RomSize::ExLoRom), map);
    let _header = HeaderData::new();
}
