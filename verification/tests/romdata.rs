use rusuper::memory::Memory;
use rusuper::romdata::{write_rom_mirror, write_rom_to_memory};
use rusuper::romdata::load_rom;
use rusuper::romdata::{check_rom_extension, check_rom_size, load_rom_ready_check};
use rand::{Rng, RngCore};
use rusuper::romdata::{
    fetch_exception_vectors, fetch_header, fetch_opt_header, floor_pow2, test_checksum, Header, RomData,
    RomReadError, RomSize, EV_LEN_BYTES, EX_HI_ROM_EXC_VECTOR_ADDR, EX_HI_ROM_EXT_HEADER_ADDR,
    HDR_CHECKSUM_INDEX, HDR_COMPLEMENT_CHECK_INDEX, HDR_FIXED_VAL_INDEX, HDR_MAP_MODE_INDEX,
    HDR_OPT_PRESENT, HDR_TEST_VALUE, HI_ROM_EXC_VECTOR_ADDR, HI_ROM_EXT_HEADER_ADDR,
    LO_ROM_EXC_VECTOR_ADDR, LO_ROM_EXT_HEADER_ADDR, OPT_HEADER_LEN_BYTES,
};

const LOROM_VALUE: u8 = 0x20;
const HIROM_VALUE: u8 = 0x21;
const EXHIROM_VALUE: u8 = 0x25;
const INVALID_MAP_VALUE: u8 = 0xC0;

/// Construct a header with a valid checksum for the given map, and test it.
fn test_checksum_result(expected_result: RomSize) -> Result<RomSize, RomReadError> {
    let mut test_header: Header = rand::thread_rng().gen();
    let mut checksum: u16 = 0;

    let header_map_value: u8 = match expected_result {
        RomSize::LoRom => LOROM_VALUE,
        RomSize::HiRom => HIROM_VALUE,
        RomSize::ExHiRom => EXHIROM_VALUE,
    };
    test_header[HDR_MAP_MODE_INDEX] = header_map_value;

    for byte in test_header.iter() {
        checksum += *byte as u16;
    }
    let compare_value: u16 = HDR_TEST_VALUE - checksum;
    test_header[HDR_COMPLEMENT_CHECK_INDEX] = compare_value.to_le_bytes()[0];
    test_header[HDR_COMPLEMENT_CHECK_INDEX + 1] = compare_value.to_le_bytes()[1];
    test_header[HDR_CHECKSUM_INDEX] = checksum.to_le_bytes()[0];
    test_header[HDR_CHECKSUM_INDEX + 1] = checksum.to_le_bytes()[1];

    test_checksum(checksum, &test_header)
}

fn test_fetch_optional_header(expected_type: RomSize) {
    let mut test_rom: Vec<u8> = vec![0; EX_HI_ROM_EXC_VECTOR_ADDR + EV_LEN_BYTES];
    rand::thread_rng().fill_bytes(&mut test_rom);
    let mut data: RomData = RomData::new();
    data.mode.mem_map = expected_type;
    data.header[HDR_FIXED_VAL_INDEX] = HDR_OPT_PRESENT;

    let header_location: usize = match expected_type {
        RomSize::LoRom => LO_ROM_EXT_HEADER_ADDR,
        RomSize::HiRom => HI_ROM_EXT_HEADER_ADDR,
        RomSize::ExHiRom => EX_HI_ROM_EXT_HEADER_ADDR,
    };

    fetch_opt_header(&test_rom, &mut data);

    for byte in 0..OPT_HEADER_LEN_BYTES {
        assert_eq!(test_rom[header_location + byte], data.opt_header[byte]);
    }
}

fn test_fetch_exception_headers(expected_type: RomSize) {
    let mut test_rom: Vec<u8> = vec![0; EX_HI_ROM_EXC_VECTOR_ADDR + EV_LEN_BYTES];
    rand::thread_rng().fill_bytes(&mut test_rom);
    let mut data: RomData = RomData::new();
    data.mode.mem_map = expected_type;

    let header_location: usize = match expected_type {
        RomSize::LoRom => LO_ROM_EXC_VECTOR_ADDR,
        RomSize::HiRom => HI_ROM_EXC_VECTOR_ADDR,
        RomSize::ExHiRom => EX_HI_ROM_EXC_VECTOR_ADDR,
    };

    fetch_exception_vectors(&test_rom, &mut data);

    for byte in 0..OPT_HEADER_LEN_BYTES {
        assert_eq!(test_rom[header_location + byte], data.exception_vectors[byte]);
    }
}

/// The number of bytes past the largest power of two that the checksum of a ROM of
/// `len` bytes counts: the rest, as many times as the first part is longer than it.
fn wrap_count(len: usize) -> usize {
    let pwr_of_two_index = floor_pow2(len);
    if pwr_of_two_index == len {
        return 0;
    }
    let rom_remainder = len - pwr_of_two_index;
    let number_of_iterations: f32 = pwr_of_two_index as f32 / rom_remainder as f32;
    (rom_remainder as f32 * number_of_iterations) as usize
}

fn fetch_header_for_misaligned_rom(mem_map: RomSize, size: usize) {
    let mut test_rom: Vec<u8> = vec![0; size];
    rand::thread_rng().fill_bytes(&mut test_rom);

    let hdr_byte_index: usize = mem_map.header_addr();
    match mem_map {
        RomSize::LoRom => test_rom[hdr_byte_index + HDR_MAP_MODE_INDEX] = LOROM_VALUE,
        RomSize::HiRom => test_rom[hdr_byte_index + HDR_MAP_MODE_INDEX] = HIROM_VALUE,
        RomSize::ExHiRom => test_rom[hdr_byte_index + HDR_MAP_MODE_INDEX] = EXHIROM_VALUE,
    }

    test_rom[hdr_byte_index + HDR_COMPLEMENT_CHECK_INDEX] = 0;
    test_rom[hdr_byte_index + HDR_COMPLEMENT_CHECK_INDEX + 1] = 0;
    test_rom[hdr_byte_index + HDR_CHECKSUM_INDEX] = 0;
    test_rom[hdr_byte_index + HDR_CHECKSUM_INDEX + 1] = 0;

    let pwr_of_two_index = size.next_power_of_two() / 2;
    let mut checksum: u16 = 0;
    for byte in &test_rom[0..pwr_of_two_index] {
        checksum = checksum.wrapping_add(*byte as u16);
    }

    let remainder = test_rom.len() - pwr_of_two_index;
    let iterations = (test_rom.len() - remainder) / remainder;

    for _iteration in 0..iterations {
        for byte in &test_rom[pwr_of_two_index..] {
            checksum = checksum.wrapping_add(*byte as u16);
        }
    }
    checksum = checksum.wrapping_add(0x01FE);

    let compare_value: u16 = HDR_TEST_VALUE - checksum;
    test_rom[hdr_byte_index + HDR_COMPLEMENT_CHECK_INDEX] = compare_value.to_le_bytes()[0];
    test_rom[hdr_byte_index + HDR_COMPLEMENT_CHECK_INDEX + 1] = compare_value.to_le_bytes()[1];
    test_rom[hdr_byte_index + HDR_CHECKSUM_INDEX] = checksum.to_le_bytes()[0];
    test_rom[hdr_byte_index + HDR_CHECKSUM_INDEX + 1] = checksum.to_le_bytes()[1];

    assert_eq!(mem_map, fetch_header(&test_rom, wrap_count(size)).unwrap().mode.mem_map);
}

#[test]
fn test_lorom_checksum() {
    assert_eq!(RomSize::LoRom, test_checksum_result(RomSize::LoRom).unwrap());
}

#[test]
fn test_fetch_optional_lorom() {
    test_fetch_optional_header(RomSize::LoRom);
}

#[test]
fn test_fetch_exception_headers_lorom() {
    test_fetch_exception_headers(RomSize::LoRom);
}

#[test]
fn test_hirom_checksum() {
    assert_eq!(RomSize::HiRom, test_checksum_result(RomSize::HiRom).unwrap());
}

#[test]
fn test_fetch_optional_hirom() {
    test_fetch_optional_header(RomSize::HiRom);
}

#[test]
fn test_fetch_exception_headers_hirom() {
    test_fetch_exception_headers(RomSize::HiRom);
}

#[test]
fn test_exhirom_checksum() {
    assert_eq!(RomSize::ExHiRom, test_checksum_result(RomSize::ExHiRom).unwrap());
}

#[test]
fn test_fetch_optional_exhirom() {
    test_fetch_optional_header(RomSize::ExHiRom);
}

#[test]
fn test_fetch_exception_headers_exhirom() {
    test_fetch_exception_headers(RomSize::ExHiRom);
}

#[test]
#[should_panic]
fn test_valid_checksum_with_bad_map() {
    let mut test_header: Header = rand::thread_rng().gen();
    let mut checksum: u16 = 0;

    test_header[HDR_MAP_MODE_INDEX] = INVALID_MAP_VALUE;
    for byte in test_header.iter() {
        checksum += *byte as u16;
    }
    let compare_value: u16 = HDR_TEST_VALUE - checksum;
    test_header[HDR_CHECKSUM_INDEX] = checksum.to_le_bytes()[0];
    test_header[HDR_CHECKSUM_INDEX + 1] = checksum.to_le_bytes()[1];
    test_header[HDR_COMPLEMENT_CHECK_INDEX] = compare_value.to_le_bytes()[0];
    test_header[HDR_COMPLEMENT_CHECK_INDEX + 1] = compare_value.to_le_bytes()[1];

    test_checksum(checksum, &test_header).unwrap();
}

#[test]
#[should_panic]
fn test_invalid_checksum() {
    let mut test_header: Header = rand::thread_rng().gen();
    let mut checksum: u16 = 0;

    test_header[HDR_MAP_MODE_INDEX] = LOROM_VALUE;
    for byte in test_header.iter() {
        checksum += *byte as u16;
    }
    checksum += 1;
    test_checksum(checksum, &test_header).unwrap();
}

#[test]
fn test_non_power_of_2_roms() {
    const HALF_STEP: usize = 512 * 1024;

    fetch_header_for_misaligned_rom(RomSize::LoRom, HALF_STEP * 3);
    fetch_header_for_misaligned_rom(RomSize::LoRom, HALF_STEP * 5);
    fetch_header_for_misaligned_rom(RomSize::LoRom, HALF_STEP * 6);
}

#[test]
fn checksum_error_texts() {
    let mut header: Header = [0; 32];
    header[HDR_CHECKSUM_INDEX] = 0x34;
    header[HDR_CHECKSUM_INDEX + 1] = 0x12;
    let err = test_checksum(0xABCD, &header).unwrap_err();
    assert_eq!(
        err.context(),
        "ROM Checksum was invalid.\nCalculated Checksum: 0xABCD\nROM Checksum: 0x1234"
    );
    header[HDR_COMPLEMENT_CHECK_INDEX] = 0xCB;
    header[HDR_COMPLEMENT_CHECK_INDEX + 1] = 0xED;
    header[HDR_MAP_MODE_INDEX] = INVALID_MAP_VALUE;
    let err = test_checksum(0x1234, &header).unwrap_err();
    assert_eq!(err.context(), "ROM Checksum was valid, but mapping mode was unreadable");
    header[HDR_MAP_MODE_INDEX] = 0x31;
    assert_eq!(test_checksum(0x1234, &header).unwrap(), RomSize::HiRom);
}

#[test]
fn floor_pow2_values() {
    assert_eq!(floor_pow2(0), 0);
    assert_eq!(floor_pow2(1), 1);
    assert_eq!(floor_pow2(3 * 512 * 1024), 1024 * 1024);
    assert_eq!(floor_pow2(4096), 4096);
}

#[test]
fn lorom_banks_land_in_upper_halves_and_mirror_from_008000() {
    let mut rom: Vec<u8> = vec![0; 0x10000];
    rand::thread_rng().fill_bytes(&mut rom);
    let mut memory = Memory::new();
    write_rom_to_memory(&rom, RomSize::LoRom, &mut memory).unwrap();
    write_rom_mirror(&rom, RomSize::LoRom, &mut memory).unwrap();
    for j in [0usize, 1, 0x1234, 0x7FFE, 0x7FFF] {
        assert_eq!(memory.get_byte(0x808000 + j).unwrap(), rom[j]);
        assert_eq!(memory.get_byte(0x818000 + j).unwrap(), rom[0x8000 + j]);
        assert_eq!(memory.get_byte(0x008000 + j).unwrap(), rom[j]);
        assert_eq!(memory.get_byte(0x018000 + j).unwrap(), rom[0x8000 + j]);
    }
    assert_eq!(memory.get_byte(0x810000).unwrap(), 0);
    assert_eq!(memory.get_byte(0x000000).unwrap(), 0);
}

#[test]
fn hirom_banks_land_at_c00000() {
    let mut rom: Vec<u8> = vec![0; 0x20000];
    rand::thread_rng().fill_bytes(&mut rom);
    let mut memory = Memory::new();
    write_rom_to_memory(&rom, RomSize::HiRom, &mut memory).unwrap();
    assert_eq!(memory.get_byte(0xC00000).unwrap(), rom[0]);
    assert_eq!(memory.get_byte(0xC1FFFF).unwrap(), rom[0x1FFFF]);
    let err = write_rom_to_memory(&rom, RomSize::ExHiRom, &mut memory).unwrap_err();
    assert_eq!(err.context(), "Unimplemented for ExHiRom");
}

#[test]
fn load_rom_bypass_copies_to_808000() {
    let rom: Vec<u8> = vec![1, 2, 3];
    let mut memory = Memory::new();
    let data = load_rom(&rom, 0, &mut memory, true).unwrap();
    assert!(!data.opt_is_present);
    assert_eq!(memory.get_byte(0x808000).unwrap(), 1);
    assert_eq!(memory.get_byte(0x808002).unwrap(), 3);
    assert_eq!(memory.get_byte(0x808003).unwrap(), 0);
}

#[test]
fn load_rom_with_checks_stops_at_decoding() {
    let mut rom: Vec<u8> = vec![0; 0x8000];
    let base = RomSize::LoRom.header_addr();
    rom[base + HDR_MAP_MODE_INDEX] = LOROM_VALUE;
    let mut checksum: u16 = 0;
    for byte in rom.iter() {
        checksum = checksum.wrapping_add(*byte as u16);
    }
    checksum = checksum.wrapping_add(0x01FE);
    let compare_value: u16 = HDR_TEST_VALUE - checksum;
    rom[base + HDR_COMPLEMENT_CHECK_INDEX] = compare_value.to_le_bytes()[0];
    rom[base + HDR_COMPLEMENT_CHECK_INDEX + 1] = compare_value.to_le_bytes()[1];
    rom[base + HDR_CHECKSUM_INDEX] = checksum.to_le_bytes()[0];
    rom[base + HDR_CHECKSUM_INDEX + 1] = checksum.to_le_bytes()[1];
    let mut memory = Memory::new();
    let err = load_rom(&rom, 0, &mut memory, false).unwrap_err();
    assert_eq!(err.context(), "Unimplemented");
    assert_eq!(memory.get_byte(0x808000).unwrap(), 0);
}

#[test]
fn rom_file_checks() {
    assert!(check_rom_extension("sfc").is_ok());
    assert_eq!(
        check_rom_extension("smc").unwrap_err().context(),
        "SMC files contain additional data that is unneeded.\nThis tool does not support them yet. Please use an SFC file."
    );
    assert_eq!(check_rom_size(0).unwrap_err().context(), "Rom was size 0");
    assert!(check_rom_size(1).is_ok());
    assert!(load_rom_ready_check(&vec![0u8; 0x8000], 0));
    assert!(!load_rom_ready_check(&vec![0u8; 0x7FD0], 0));
    assert!(!load_rom_ready_check(&vec![], 1));
}
