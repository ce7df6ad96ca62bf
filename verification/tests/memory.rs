use rand::{Rng, RngCore};
use rusuper::memory::{compose_address, Memory, MEMORY_END, MEMORY_SIZE};

/// Fill memory with random bytes, and return them.
fn fill_random(memory_under_test: &mut Memory) -> Vec<u8> {
    let mut random_data: Vec<u8> = vec![0; MEMORY_SIZE];
    rand::thread_rng().fill_bytes(&mut random_data);

    for addr in 0..MEMORY_SIZE {
        memory_under_test.put_byte(addr, random_data[addr]).unwrap();
    }

    random_data
}

#[test]
fn test_put_byte() {
    let mut memory_under_test = Memory::new();
    let mut random_data: Vec<u8> = vec![0; MEMORY_SIZE];
    rand::thread_rng().fill_bytes(&mut random_data);

    for addr in 0..MEMORY_END {
        memory_under_test.put_byte(addr, random_data[addr]).unwrap();
    }

    for addr in 0..MEMORY_END {
        assert_eq!(random_data[addr], memory_under_test.get_byte(addr).unwrap());
    }
}

#[test]
#[should_panic]
fn test_put_invalid_byte() {
    let mut memory_under_test = Memory::new();
    memory_under_test.put_byte(MEMORY_SIZE, 0).unwrap();
}

#[test]
fn test_get_byte() {
    let mut memory_under_test = Memory::new();
    let random_data = fill_random(&mut memory_under_test);

    for addr in 0..MEMORY_END {
        assert_eq!(random_data[addr], memory_under_test.get_byte(addr).unwrap());
    }
}

#[test]
#[should_panic]
fn test_get_invalid_byte() {
    let memory_under_test = Memory::new();
    let _ = &memory_under_test.get_byte(MEMORY_SIZE).unwrap();
}

#[test]
fn test_put_word() {
    let mut memory_under_test: Memory = Memory::new();
    let mut random_data: Vec<u16> = vec![0; MEMORY_SIZE / 2];

    memory_under_test._put_word(0x000000, 0xAABB).unwrap();
    assert_eq!(memory_under_test.get_byte(0).unwrap(), 0xBB);
    assert_eq!(memory_under_test.get_byte(1).unwrap(), 0xAA);

    let mut rand_word: u16;
    for addr in 0..MEMORY_SIZE {
        if addr % 2 == 0 {
            rand_word = rand::thread_rng().gen();
            random_data[addr / 2] = rand_word;
            memory_under_test._put_word(addr, rand_word).unwrap();
        }
    }

    for addr in 0..MEMORY_SIZE {
        if addr % 2 == 0 {
            let test_word: u16 = u16::from_le_bytes([
                memory_under_test.get_byte(addr).unwrap(),
                memory_under_test.get_byte(addr + 1).unwrap(),
            ]);
            assert_eq!(random_data[addr / 2], test_word);
        }
    }
}

#[test]
#[should_panic]
fn test_put_invalid_word() {
    let mut memory_under_test: Memory = Memory::new();
    memory_under_test._put_word(MEMORY_SIZE + 1, 0).unwrap();
}

#[test]
fn test_get_word() {
    let mut memory_under_test: Memory = Memory::new();
    let mut random_data: Vec<u16> = vec![0; MEMORY_SIZE / 2];

    memory_under_test.put_byte(0, 0xBB).unwrap();
    memory_under_test.put_byte(1, 0xAA).unwrap();
    assert_eq!(memory_under_test.get_word(0x000000).unwrap(), 0xAABB);

    let mut rand_word: u16;
    for addr in 0..MEMORY_SIZE {
        if addr % 2 == 0 {
            rand_word = rand::thread_rng().gen();
            random_data[addr / 2] = rand_word;
            memory_under_test._put_word(addr, rand_word).unwrap();
        }
    }

    for addr in 0..MEMORY_SIZE {
        if addr % 2 == 0 {
            let test_word: u16 = u16::from_le_bytes([
                memory_under_test.get_byte(addr).unwrap(),
                memory_under_test.get_byte(addr + 1).unwrap(),
            ]);
            assert_eq!(random_data[addr / 2], test_word);
        }
    }
}

#[test]
#[should_panic]
fn test_get_invalid_word() {
    let memory_under_test: Memory = Memory::new();
    memory_under_test.get_word(MEMORY_SIZE).unwrap();
}

#[test]
fn word_at_last_address_is_out_of_range() {
    let memory_under_test = Memory::new();
    let err = memory_under_test.get_word(MEMORY_END).unwrap_err();
    assert_eq!(err.addr(), MEMORY_SIZE);
    assert_eq!(err.message(), "Address index 0x1000000 out of bounds");
    let err = memory_under_test.get_byte(0x1234567).unwrap_err();
    assert_eq!(err.message(), "Address index 0x1234567 out of bounds");
}

#[test]
fn compose_address_joins_bank_and_offset() {
    assert_eq!(compose_address(0x80, 0x8000), 0x808000);
    assert_eq!(compose_address(0x00, 0x1234), 0x001234);
    assert_eq!(compose_address(0xFF, 0xFFFF), MEMORY_END);
}

#[test]
fn bytes_text_dumps_eight_rows() {
    let mut memory = Memory::new();
    memory.put_byte(0x808000, 0xAB).unwrap();
    memory.put_byte(0x80807F, 0x01).unwrap();
    let text = memory.bytes_text(None);
    let lines: Vec<&str> = text.split('\n').collect();
    assert_eq!(lines[0], "");
    assert_eq!(lines[1], "0x|00 01 02 03 04 05 06 07 08 09 0A 0B 0C 0D 0E 0F ");
    assert_eq!(lines[2], "==================================================");
    assert_eq!(lines[3], "00|ab 00 00 00 00 00 00 00 00 00 00 00 00 00 00 00 ");
    assert_eq!(lines[10], "07|00 00 00 00 00 00 00 00 00 00 00 00 00 00 00 01 ");
    assert_eq!(lines.len(), 12);
    assert_eq!(memory.bytes_text(Some(0x808000)), text);
}

#[test]
fn bank_writes_the_whole_bank() {
    let mut memory = Memory::new();
    let data: Vec<u8> = vec![7; 0x8000];
    memory.put_bank(rusuper::romdata::BankSize::Lo, 0x008000, &data).unwrap();
    assert_eq!(memory.get_byte(0x007FFF).unwrap(), 0);
    assert_eq!(memory.get_byte(0x008000).unwrap(), 7);
    assert_eq!(memory.get_byte(0x00FFFF).unwrap(), 7);
    assert_eq!(memory.get_byte(0x010000).unwrap(), 0);
    let high: Vec<u8> = vec![0x11; 0x10000];
    assert!(memory.put_bank(rusuper::romdata::BankSize::Hi, 0xFF0001, &high).is_err());
    assert_eq!(memory.get_byte(0xFF0001).unwrap(), 0);
    memory.put_bank(rusuper::romdata::BankSize::Hi, 0xFF0000, &high).unwrap();
    assert_eq!(memory.get_byte(0xFF0000).unwrap(), 0x11);
    assert_eq!(memory.get_byte(0xFFFFFF).unwrap(), 0x11);
    let err = memory.put_bank(rusuper::romdata::BankSize::Lo, 0xFF8001, &data).unwrap_err();
    assert_eq!(err.addr(), 0x1000000);
}
