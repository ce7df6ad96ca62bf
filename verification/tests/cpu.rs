use rusuper::cpu::registers::{CpuRegisters, StatusFlags, StatusRegister};
use rusuper::cpu::CpuState;
use rusuper::memory::Memory;

#[test]
fn cpu_starts_at_reset_vector_bank() {
    let cpu = CpuState::new();
    assert_eq!(cpu.get_pc(), 0x808000);
    assert_eq!(cpu.cycles_to_pend, 0);
    assert_eq!(cpu.registers.acc, 0);
}

#[test]
fn step_over_nop_moves_pc_by_one() {
    let mut cpu = CpuState::new();
    let mut memory = Memory::new();
    memory.put_byte(0x808000, 0xEA).unwrap();
    assert!(cpu.step(&mut memory));
    assert_eq!(cpu.get_pc(), 0x808001);
    assert_eq!(cpu.registers.acc, 0);
}

#[test]
fn step_over_unimplemented_opcode_stops() {
    let mut cpu = CpuState::new();
    let mut memory = Memory::new();
    memory.put_byte(0x808000, 0xDB).unwrap();
    assert!(!cpu.step(&mut memory));
    assert_eq!(cpu.get_pc(), 0x808001);
}

#[test]
fn step_over_lda_immediate_loads_word() {
    let mut cpu = CpuState::new();
    let mut memory = Memory::new();
    memory.put_byte(0x808000, 0xA9).unwrap();
    memory.put_byte(0x808001, 0x34).unwrap();
    memory.put_byte(0x808002, 0x12).unwrap();
    memory.put_byte(0x808003, 0xEA).unwrap();
    assert!(cpu.step(&mut memory));
    assert_eq!(cpu.registers.acc, 0x1234);
    assert_eq!(cpu.get_pc(), 0x808003);
    assert!(cpu.step(&mut memory));
    assert_eq!(cpu.get_pc(), 0x808004);
}

#[test]
fn step_over_lda_immediate_in_8bit_mode_reads_one_byte() {
    let mut cpu = CpuState::new();
    cpu.registers.set_flag(StatusFlags::AccSize);
    let mut memory = Memory::new();
    memory.put_byte(0x808000, 0xA9).unwrap();
    memory.put_byte(0x808001, 0x42).unwrap();
    memory.put_byte(0x808002, 0x99).unwrap();
    assert!(cpu.step(&mut memory));
    assert_eq!(cpu.registers.acc, 0x42);
    assert!(!cpu.registers.get_flag(StatusFlags::Zero));
    assert!(!cpu.registers.get_flag(StatusFlags::Negative));
    assert_eq!(cpu.get_pc(), 0x808002);
}

#[test]
fn step_over_adc_immediate_in_8bit_mode() {
    let mut cpu = CpuState::new();
    let mut memory = Memory::new();
    cpu.registers.set_flag(StatusFlags::AccSize);
    cpu.registers.acc = 0x10;
    memory.put_byte(0x808000, 0x69).unwrap();
    memory.put_byte(0x808001, 0x05).unwrap();
    assert!(cpu.step(&mut memory));
    assert_eq!(cpu.registers.acc, 0x15);
    assert_eq!(cpu.get_pc(), 0x808002);
}

#[test]
fn state_text_shows_registers() {
    let cpu = CpuState::new();
    assert_eq!(
        cpu.state_text(),
        "\nPC: 0x008000 ACC: 0x0000 SP: 0x0000\nData Bank: 0x00 Prog Bank: 0x80 Direct Page: 0x0000"
    );
}

#[test]
fn flags_set_and_clear_keep_status_byte() {
    let mut registers = CpuRegisters::new();
    registers.set_flag(StatusFlags::Carry);
    registers.set_flag(StatusFlags::Negative);
    assert!(registers.get_flag(StatusFlags::Carry));
    assert!(registers.get_flag(StatusFlags::Negative));
    assert!(!registers.get_flag(StatusFlags::Zero));
    assert_eq!(registers._get_flag_vals(), 0x81);
    registers.clear_flag(StatusFlags::Carry);
    assert!(!registers.get_flag(StatusFlags::Carry));
    assert_eq!(registers._get_flag_vals(), 0x80);
}

#[test]
fn setting_acc_size_clears_top_byte() {
    let mut registers = CpuRegisters::new();
    registers.acc = 0x1234;
    registers.set_flag(StatusFlags::AccSize);
    assert_eq!(registers.acc, 0x34);
}

#[test]
fn status_register_starts_clear() {
    let _status = StatusRegister::new();
    assert_eq!(CpuRegisters::new()._get_flag_vals(), 0);
}

#[test]
fn step_pc_wraps() {
    let mut registers = CpuRegisters::new();
    registers.pc = 0xFFFF;
    registers._step_pc(2);
    assert_eq!(registers.pc, 1);
}
