use rusuper::cpu::instructions::{adc, arithmetic, lda, CpuInstructionFnArguments};
use rusuper::cpu::registers::StatusFlags;
use rusuper::cpu::CpuState;
use rusuper::memory::Memory;

#[test]
fn test_immediate_8bit() {
    let test_cases = vec![
        //ACC +  B =  C,         n, v, z, c
        [0x0001, 0x0001, 0x0002, 0, 0, 0, 0],
        [0x007F, 0x0082, 0x0001, 0, 0, 0, 1],
        [0x0000, 0x0000, 0x0000, 0, 0, 1, 0],
        [0x0001, 0x00FF, 0x0000, 0, 0, 1, 1],
        [0x007F, 0x0001, 0x0080, 1, 1, 0, 0],
        [0x0080, 0x0001, 0x0081, 1, 0, 0, 0],
    ];

    for case in test_cases {
        let mut test_cpu: CpuState = CpuState::new();
        let mut test_memory: Memory = Memory::new();
        test_cpu.registers.set_flag(StatusFlags::AccSize);
        test_cpu.registers.acc = case[0];

        println!("Test case: {:?}", case);

        adc::immediate(&mut test_cpu, &mut test_memory, case[1]);

        println!("Testing output value. ");
        assert_eq!(test_cpu.registers.acc, case[2]);
        println!("Testing Flags: n, ");
        assert_eq!(case[3], test_cpu.registers.get_flag(StatusFlags::Negative) as u16);
        println!("v, ");
        assert_eq!(case[4], test_cpu.registers.get_flag(StatusFlags::Overflow) as u16);
        println!("z, ");
        assert_eq!(case[5], test_cpu.registers.get_flag(StatusFlags::Zero) as u16);
        println!("c.");
        assert_eq!(case[6], test_cpu.registers.get_flag(StatusFlags::Carry) as u16);
    }
}

#[test]
fn test_immediate_16bit() {
    let test_cases = vec![
        //ACC +  B =  C,         n, v, z, c
        [0x0001, 0x0001, 0x0002, 0, 0, 0, 0],
        [0xFFFF, 0x0002, 0x0001, 0, 0, 0, 1],
        [0xFFFF, 0x0001, 0x0000, 0, 0, 1, 1],
        [0x7FFF, 0x0001, 0x8000, 1, 1, 0, 0],
        [0x8000, 0x0001, 0x8001, 1, 0, 0, 0],
    ];

    for case in test_cases {
        let mut test_cpu: CpuState = CpuState::new();
        let mut test_memory: Memory = Memory::new();
        test_cpu.registers.clear_flag(StatusFlags::AccSize);
        test_cpu.registers.acc = case[0];

        println!("Test case: {:?}", case);

        adc::immediate(&mut test_cpu, &mut test_memory, case[1]);

        println!("Testing output value. ");
        assert_eq!(test_cpu.registers.acc, case[2]);
        println!("Testing Flags: n, ");
        assert_eq!(case[3], test_cpu.registers.get_flag(StatusFlags::Negative) as u16);
        println!("v, ");
        assert_eq!(case[4], test_cpu.registers.get_flag(StatusFlags::Overflow) as u16);
        println!("z, ");
        assert_eq!(case[5], test_cpu.registers.get_flag(StatusFlags::Zero) as u16);
        println!("c.");
        assert_eq!(case[6], test_cpu.registers.get_flag(StatusFlags::Carry) as u16);
    }
}

#[test]
fn adc_immediate() {
    let test_cases = vec![
        //ACC +  B =  C,     n, v, z, c, 8-bit mode
        [0x0001, 0x0001, 0x0002, 0, 0, 0, 0, 1],
        [0x00FF, 0x0001, 0x0000, 0, 0, 1, 1, 1],
        [0x007F, 0x0001, 0x0080, 1, 1, 0, 0, 1],
        [0xFFFF, 0x0001, 0x0000, 0, 0, 1, 1, 0],
        [0x00FF, 0x0001, 0x0100, 0, 0, 0, 0, 0],
        [0x7FFF, 0x0001, 0x8000, 1, 1, 0, 0, 0],
        [0x0010, 0x0020, 0x0030, 0, 0, 0, 0, 0],
    ];

    for case in test_cases {
        let mut test_cpu: CpuState = CpuState::new();
        let mut test_memory: Memory = Memory::new();
        if case[7] == 1 {
            test_cpu.registers.set_flag(StatusFlags::AccSize);
        }
        test_cpu.registers.acc = case[0];

        assert!(arithmetic::adc_immediate(&mut test_cpu, &mut test_memory, case[1]));

        assert_eq!(test_cpu.registers.acc, case[2]);
        assert_eq!(case[3], test_cpu.registers.get_flag(StatusFlags::Negative) as u16);
        assert_eq!(case[4], test_cpu.registers.get_flag(StatusFlags::Overflow) as u16);
        assert_eq!(case[5], test_cpu.registers.get_flag(StatusFlags::Zero) as u16);
        assert_eq!(case[6], test_cpu.registers.get_flag(StatusFlags::Carry) as u16);
    }
}

#[test]
fn adc_immediate_8bit_keeps_carry_through_the_operand() {
    let mut test_cpu = CpuState::new();
    let mut test_memory = Memory::new();
    test_cpu.registers.set_flag(StatusFlags::AccSize);
    test_cpu.registers.set_flag(StatusFlags::Carry);
    test_cpu.registers.acc = 0x0001;
    assert_eq!(adc::immediate(&mut test_cpu, &mut test_memory, 0x00FF), Some(2));
    assert_eq!(test_cpu.registers.acc, 0x0001);
    assert!(test_cpu.registers.get_flag(StatusFlags::Carry));
    assert!(!test_cpu.registers.get_flag(StatusFlags::Overflow));
    assert!(!test_cpu.registers.get_flag(StatusFlags::Zero));
    assert!(!test_cpu.registers.get_flag(StatusFlags::Negative));
}

#[test]
fn adc_immediate_16bit_full_operand_with_carry() {
    let mut test_cpu = CpuState::new();
    let mut test_memory = Memory::new();
    test_cpu.registers.set_flag(StatusFlags::Carry);
    test_cpu.registers.acc = 0x0000;
    assert_eq!(adc::immediate(&mut test_cpu, &mut test_memory, 0xFFFF), Some(3));
    assert_eq!(test_cpu.registers.acc, 0x0000);
    assert!(test_cpu.registers.get_flag(StatusFlags::Carry));
    assert!(test_cpu.registers.get_flag(StatusFlags::Zero));
    assert!(!test_cpu.registers.get_flag(StatusFlags::Overflow));
}

#[test]
fn test_immediate() {
    let test_cases = vec![
        //acc, n, z
        [0x00, 0, 1],
        [0x01, 0, 0],
        [0x7F, 0, 0],
        [0x80, 1, 0],
        [0xFF, 1, 0],
    ];

    let mut test_cpu = CpuState::new();
    let mut test_mem = Memory::new();
    test_cpu.registers.set_flag(StatusFlags::AccSize);

    let mut test_args: CpuInstructionFnArguments = CpuInstructionFnArguments { bank: None, param: 0 };

    for case in test_cases {
        test_args.param = case[0];
        lda::immediate(&mut test_cpu, &mut test_mem, &test_args);

        println!("Test Case: {:?}", case);
        println!("Testing Result");
        assert_eq!(case[0], test_cpu.registers.acc);

        println!(" Testing Flags: ");
        println!("n, ");
        assert_eq!(case[1], test_cpu.registers.get_flag(StatusFlags::Negative) as u16);
        println!("z");
        assert_eq!(case[2], test_cpu.registers.get_flag(StatusFlags::Zero) as u16);
    }
}

#[test]
fn adc_immediate_carry_in_adds_one() {
    let mut test_cpu = CpuState::new();
    let mut test_memory = Memory::new();
    test_cpu.registers.clear_flag(StatusFlags::AccSize);
    test_cpu.registers.set_flag(StatusFlags::Carry);
    test_cpu.registers.acc = 0x1000;
    assert_eq!(adc::immediate(&mut test_cpu, &mut test_memory, 0x0234), Some(3));
    assert_eq!(test_cpu.registers.acc, 0x1235);
    assert!(!test_cpu.registers.get_flag(StatusFlags::Carry));
}

#[test]
fn adc_immediate_cycles_by_mode() {
    let mut test_cpu = CpuState::new();
    let mut test_memory = Memory::new();
    test_cpu.registers.set_flag(StatusFlags::AccSize);
    assert_eq!(adc::immediate(&mut test_cpu, &mut test_memory, 1), Some(2));
    assert_eq!(adc::absolute(&mut test_cpu, &mut test_memory, 1), None);
}

#[test]
fn lda_immediate_16bit_loads_word() {
    let mut test_cpu = CpuState::new();
    let mut test_mem = Memory::new();
    let test_args = CpuInstructionFnArguments { bank: None, param: 0x8001 };
    assert_eq!(lda::immediate(&mut test_cpu, &mut test_mem, &test_args), Some(3));
    assert_eq!(test_cpu.registers.acc, 0x8001);
    assert!(test_cpu.registers.get_flag(StatusFlags::Negative));
    assert!(!test_cpu.registers.get_flag(StatusFlags::Zero));
}

#[test]
fn lda_absolute_reads_memory() {
    let mut test_cpu = CpuState::new();
    let mut test_mem = Memory::new();
    test_mem.put_byte(0x801234, 0xBB).unwrap();
    test_mem.put_byte(0x801235, 0xAA).unwrap();
    let test_args = CpuInstructionFnArguments { bank: None, param: 0x1234 };
    assert_eq!(lda::absolute(&mut test_cpu, &mut test_mem, &test_args), Some(4));
    assert_eq!(test_cpu.registers.acc, 0xAABB);
    assert!(test_cpu.registers.get_flag(StatusFlags::Negative));
    assert!(!test_cpu.registers.get_flag(StatusFlags::Zero));
}
