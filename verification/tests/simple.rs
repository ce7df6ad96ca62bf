use rusuper::simple::cpu::{CpuInstruction, CpuOpcode, CpuState};
use rusuper::simple::memory::{Memory, MEMORY_SIZE};

#[test]
fn simple_cpu_starts_zeroed() {
    let cpu = CpuState::new();
    assert_eq!(cpu.pc(), 0);
    assert_eq!(cpu.example(), 0);
    assert_eq!(cpu.acc(), 0);
}

#[test]
fn simple_step_moves_past_the_nop() {
    let mut cpu = CpuState::new();
    let mut memory = Memory::new();
    cpu.step(&mut memory);
    assert_eq!(cpu.pc(), 1);
    assert_eq!(cpu.acc(), 0);
    assert_eq!(cpu.fetch(&memory), 0);
    assert_eq!(cpu.decode(0).opcode, CpuOpcode::NOP);
}

#[test]
fn simple_execute_add() {
    let mut cpu = CpuState::new();
    cpu.execute(CpuInstruction { opcode: CpuOpcode::ADD { x: 5 }, parameters: 0 });
    cpu.execute(CpuInstruction { opcode: CpuOpcode::ADD { x: 7 }, parameters: 0 });
    assert_eq!(cpu.acc(), 12);
    cpu.execute(CpuInstruction::new());
    assert_eq!(cpu.acc(), 12);
}

#[test]
fn simple_set_opcode_zero_is_nop() {
    let mut inst = CpuInstruction { opcode: CpuOpcode::ADD { x: 1 }, parameters: 9 };
    inst.set_opcode(0);
    assert_eq!(inst.opcode, CpuOpcode::NOP);
    assert_eq!(inst.parameters, 9);
}

#[test]
fn simple_memory_chunks_overwrite_the_start() {
    let mut memory = Memory::new();
    assert_eq!(memory.len(), MEMORY_SIZE);
    memory.write_chunk(&[1, 2, 3]);
    memory.write_chunk(&[9]);
    assert_eq!(memory.read(0), 9);
    assert_eq!(memory.read(1), 2);
    assert_eq!(memory.read(2), 3);
    assert_eq!(memory.read(3), 0);
}
