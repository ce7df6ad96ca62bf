use rusuper::emu::misc::print_args_ready;
use rusuper::emu::tick_ready_check;
use rusuper::emu::misc::{dbg_print, dbg_print_absolute, string_to_hex, InvalidValueError};
use rusuper::emu::{step_cpu, ClockState, CpuTick, VirtualMachine};

#[test]
fn vm_starts_stopped() {
    let vm = VirtualMachine::new();
    assert!(!vm.is_running);
    assert_eq!(vm.clocks, ClockState::new());
    assert_eq!(vm.cpu.get_pc(), 0x808000);
}

#[test]
fn step_cpu_runs_then_pends() {
    let mut vm = VirtualMachine::new();
    vm.memory.put_byte(0x808000, 0xEA).unwrap();
    assert_eq!(step_cpu(&mut vm), CpuTick::Executed(true));
    assert_eq!(vm.cpu.get_pc(), 0x808001);
    assert_eq!(vm.clocks.cpu_clock_cycles_elapsed, 0);

    vm.cpu.cycles_to_pend = 2;
    assert_eq!(step_cpu(&mut vm), CpuTick::Pended);
    assert_eq!(vm.cpu.cycles_to_pend, 1);
    assert_eq!(vm.clocks.cpu_clock_cycles_elapsed, 1);
    assert_eq!(vm.cpu.get_pc(), 0x808001);
}

#[test]
fn step_cpu_stops_on_unimplemented() {
    let mut vm = VirtualMachine::new();
    assert_eq!(step_cpu(&mut vm), CpuTick::Executed(false));
}

#[test]
fn misc_string_to_hex() {
    assert_eq!(string_to_hex("$808000").unwrap(), 0x808000);
    assert!(string_to_hex("$zz").is_err());
    let _e = InvalidValueError::new("bad");
}

#[test]
fn print_shows_byte_and_word() {
    let mut vm = VirtualMachine::new();
    vm.memory.put_byte(0x808000, 0xBB).unwrap();
    vm.memory.put_byte(0x808001, 0xAA).unwrap();
    assert_eq!(
        dbg_print(&vec![String::from("$808000")], &vm.memory),
        "Fetching value from address 0x808000\nByte Value: 0xBB Word Value: 0xAABB \n"
    );
    assert_eq!(
        dbg_print_absolute(0xFFFFFF, &vm.memory),
        "Fetching value from address 0xFFFFFF\nByte Value: 0x00 Word Value: Invalid\n"
    );
    assert_eq!(dbg_print(&vec![String::from("$80"), String::from("+2")], &vm.memory), "Unimplemented\n");
    assert_eq!(
        dbg_print(&vec![String::from("xyz")], &vm.memory),
        "Error: xyz was an invalid address value.\n"
    );
}

#[test]
fn readiness_checks() {
    let mut vm = VirtualMachine::new();
    assert!(vm.cpu.step_ready_check(&vm.memory));
    vm.memory.put_byte(0x808000, 0x69).unwrap();
    vm.memory.put_byte(0x808001, 0xFF).unwrap();
    vm.memory.put_byte(0x808002, 0xFF).unwrap();
    vm.cpu.registers.set_flag(rusuper::cpu::registers::StatusFlags::Carry);
    assert!(tick_ready_check(&vm));
    vm.cpu.registers.program_bank = 0xFF;
    vm.cpu.registers.pc = 0xFFFF;
    vm.memory.put_byte(0xFFFFFF, 0x69).unwrap();
    assert!(!tick_ready_check(&vm));
    assert!(print_args_ready(&vec![String::from("$12345678")]));
    assert!(!print_args_ready(&vec![String::from("$123456789")]));
    assert!(print_args_ready(&vec![String::from("$1"), String::from("+123456789")]));
}
