//! The 65816 CPU core.
use vstd::prelude::*;

use crate::memory::{self, compose_address, word_of, Memory, MEMORY_SIZE};

pub mod instructions;
pub mod registers;

use instructions::{execute, execute_ready, execute_ready_check, fetch_and_decode, spec_execute, spec_instruction_map};
use registers::{CpuRegisters, StatusFlags};

verus! {

/// The CPU: its registers, and the cycles to wait before running the next operation.
#[derive(Debug)]
pub struct CpuState {
    pub registers: CpuRegisters,
    pub cycles_to_pend: u8,
}

impl CpuState {
    /// Well-formed: the registers are.
    pub open spec fn wf(&self) -> bool {
        self.registers.wf()
    }

    /// The absolute address of the next instruction: program bank and PC.
    pub open spec fn spec_pc(&self) -> int {
        self.registers.program_bank * 0x10000 + self.registers.pc
    }

    /// The instruction that the byte at the PC decodes to.
    pub open spec fn next_instruction(&self, mem: Seq<u8>) -> instructions::CpuInstruction {
        spec_instruction_map(mem[self.spec_pc()])
    }

    /// Whether the next step runs without a fault: its parameter bytes and the memory
    /// that its instruction reads are in range.
    pub open spec fn step_ready(&self, mem: Seq<u8>) -> bool {
        execute_ready(*self, self.next_instruction(mem), mem)
    }

    /// A CPU at power-on.
    pub fn new() -> (c: Self)
        ensures
            c.wf(),
            c.registers.is_power_on(),
            c.cycles_to_pend == 0,
    {
        Self { registers: CpuRegisters::new(), cycles_to_pend: 0x00 }
    }

    /// Fetch, decode and execute the next instruction. Returns `false` when the
    /// machine should stop.
    pub fn step(&mut self, mem: &mut Memory) -> (running: bool)
        requires
            old(self).wf(),
            old(mem).wf(),
            old(self).step_ready(old(mem)@),
        ensures
            final(self).wf(),
            *final(mem) == *old(mem),
            (*final(self), running) == spec_execute(
                *old(self),
                old(self).next_instruction(old(mem)@),
                old(mem)@,
            ),
    {
        let next_instruction = fetch_and_decode(self, mem);
        execute(self, next_instruction, mem)
    }

    /// Whether the next step runs without a fault (see `step_ready`).
    pub fn step_ready_check(&self, mem: &Memory) -> (b: bool)
        requires
            self.wf(),
            mem.wf(),
        ensures
            b == self.step_ready(mem@),
    {
        let byte = match mem.get_byte(self.get_pc()) {
            Ok(b) => b,
            Err(_) => 0,
        };
        let inst = instructions::instruction_map(byte);
        execute_ready_check(self, inst, mem)
    }

    /// The state of the CPU as text (see `registers_text`).
    pub fn state_text(&self) -> (s: String)
        ensures
            s@ == registers::registers_text(self.registers),
    {
        self.registers.state_text()
    }

    /// The absolute address of the next instruction: program bank and PC.
    pub fn get_pc(&self) -> (a: usize)
        ensures
            a == self.spec_pc(),
            a < MEMORY_SIZE,
    {
        compose_address(self.registers.program_bank, self.registers.pc)
    }
}

/// A step over NOP (opcode 0xEA) keeps the machine running and only moves the PC past
/// the opcode, wrapping within the bank.
pub proof fn lemma_step_nop(cpu: CpuState, mem: Seq<u8>)
    requires
        cpu.wf(),
        mem.len() == MEMORY_SIZE,
        mem[cpu.spec_pc()] == 0xEA,
    ensures
        cpu.step_ready(mem),
        spec_execute(cpu, cpu.next_instruction(mem), mem) == (
            CpuState {
                registers: CpuRegisters { pc: ((cpu.registers.pc + 1) % 0x10000) as u16, ..cpu.registers },
                ..cpu
            },
            true,
        ),
{
}

/// A step over an opcode that is not implemented stops the machine; only the PC moves,
/// past the opcode.
pub proof fn lemma_step_stops_on_unimplemented(cpu: CpuState, mem: Seq<u8>)
    requires
        cpu.wf(),
        mem.len() == MEMORY_SIZE,
        mem[cpu.spec_pc()] != 0x69,
        mem[cpu.spec_pc()] != 0x6D,
        mem[cpu.spec_pc()] != 0x6F,
        mem[cpu.spec_pc()] != 0xA9,
        mem[cpu.spec_pc()] != 0xEA,
    ensures
        cpu.step_ready(mem),
        spec_execute(cpu, cpu.next_instruction(mem), mem) == (
            CpuState {
                registers: CpuRegisters { pc: ((cpu.registers.pc + 1) % 0x10000) as u16, ..cpu.registers },
                ..cpu
            },
            false,
        ),
{
}

/// A step over LDA immediate (opcode 0xA9) loads the operand after the opcode into the
/// accumulator, keeps running, and moves the PC past the opcode and the operand: one
/// byte in 8-bit mode, a word otherwise.
pub proof fn lemma_step_lda_immediate(cpu: CpuState, mem: Seq<u8>)
    requires
        cpu.wf(),
        mem.len() == MEMORY_SIZE,
        mem[cpu.spec_pc()] == 0xA9,
        cpu.spec_pc() + 2 < MEMORY_SIZE,
    ensures
        cpu.step_ready(mem),
        ({
            let (c, running) = spec_execute(cpu, cpu.next_instruction(mem), mem);
            let lo = mem[cpu.spec_pc() + 1];
            let w = word_of(lo, mem[cpu.spec_pc() + 2]);
            &&& running
            &&& c.wf()
            &&& c.cycles_to_pend == cpu.cycles_to_pend
            &&& cpu.registers.flag(StatusFlags::AccSize) ==> c.registers.pc == (cpu.registers.pc + 2)
                % 0x10000 && c.registers.acc == lo
            &&& !cpu.registers.flag(StatusFlags::AccSize) ==> c.registers.pc == (cpu.registers.pc
                + 3) % 0x10000 && c.registers.acc == w
            &&& c.registers.flag(StatusFlags::Zero) == (c.registers.acc == 0)
        }),
{
    let lo = mem[cpu.spec_pc() + 1];
    let w = word_of(lo, mem[cpu.spec_pc() + 2]);
    if cpu.registers.flag(StatusFlags::AccSize) {
        instructions::lda::lemma_lda_immediate_loads(cpu.registers, lo as u16);
        assert((lo as u16) % 0x100 == lo);
    } else {
        instructions::lda::lemma_lda_immediate_loads(cpu.registers, w);
    }
}

/// A step over ADC immediate (opcode 0x69) adds the operand after the opcode and the
/// carry to the accumulator, keeps running, and moves the PC past the opcode and the
/// operand. In 16-bit accumulator mode the operand is the little-endian word after the
/// opcode and the PC moves by 3; in 8-bit mode it is the one byte after the opcode, the
/// low byte of the accumulator takes the sum and the PC moves by 2. The carry flag
/// afterwards tells whether the sum overflowed.
pub proof fn lemma_step_adc_immediate(cpu: CpuState, mem: Seq<u8>)
    requires
        cpu.wf(),
        mem.len() == MEMORY_SIZE,
        mem[cpu.spec_pc()] == 0x69,
        cpu.registers.flag(StatusFlags::AccSize) ==> cpu.spec_pc() + 1 < MEMORY_SIZE,
        !cpu.registers.flag(StatusFlags::AccSize) ==> cpu.spec_pc() + 2 < MEMORY_SIZE,
    ensures
        cpu.step_ready(mem),
        ({
            let (c, running) = spec_execute(cpu, cpu.next_instruction(mem), mem);
            let carry_in: int = if cpu.registers.flag(StatusFlags::Carry) {
                1
            } else {
                0
            };
            let lo = mem[cpu.spec_pc() + 1] as int;
            &&& running
            &&& c.wf()
            &&& c.cycles_to_pend == cpu.cycles_to_pend
            &&& c.registers.flag(StatusFlags::AccSize) == cpu.registers.flag(StatusFlags::AccSize)
            &&& !cpu.registers.flag(StatusFlags::AccSize) ==> {
                let sum = cpu.registers.acc + lo + 0x100 * (mem[cpu.spec_pc() + 2] as int)
                    + carry_in;
                &&& c.registers.pc == (cpu.registers.pc + 3) % 0x10000
                &&& c.registers.acc == sum % 0x10000
                &&& c.registers.flag(StatusFlags::Carry) == (sum >= 0x10000)
            }
            &&& cpu.registers.flag(StatusFlags::AccSize) ==> {
                let sum = (cpu.registers.acc as int) % 0x100 + lo + carry_in;
                &&& c.registers.pc == (cpu.registers.pc + 2) % 0x10000
                &&& c.registers.acc % 0x100 == sum % 0x100
                &&& c.registers.flag(StatusFlags::Carry) == (sum >= 0x100)
            }
        }),
{
    let pc = cpu.spec_pc();
    let r = cpu.registers;
    let param: u16 = if r.flag(StatusFlags::AccSize) {
        mem[pc + 1] as u16
    } else {
        word_of(mem[pc + 1], mem[pc + 2])
    };
    instructions::adc::lemma_adc_immediate_adds(r, param);
    let r2 = instructions::adc::spec_immediate(r, param).0;
    let cb = instructions::adc::carry_bit(r2);
    if r.flag(StatusFlags::AccSize) {
        assert((param as int) % 0x100 == mem[pc + 1] as int);
        assert(r2.acc % 0x100 == r2.acc as int);
        assert(r2.acc == (r2.acc + 0x100 * cb) % 0x100) by (nonlinear_arith)
            requires
                0 <= r2.acc < 0x100,
                0 <= cb <= 1,
        ;
    } else {
        assert(param as int == mem[pc + 1] + 0x100 * mem[pc + 2]);
        assert(r2.acc == (r2.acc + 0x10000 * cb) % 0x10000) by (nonlinear_arith)
            requires
                0 <= r2.acc < 0x10000,
                0 <= cb <= 1,
        ;
    }
}

/// A step over ADC absolute (opcode 0x6D, a word operand) or ADC absolute long (opcode
/// 0x6F, a bank and a word) stops the machine: the registers are kept but for the PC,
/// which moves past the opcode and the operand, by 3 or by 4.
pub proof fn lemma_step_adc_absolute_stops(cpu: CpuState, mem: Seq<u8>)
    requires
        cpu.wf(),
        mem.len() == MEMORY_SIZE,
        mem[cpu.spec_pc()] == 0x6D || mem[cpu.spec_pc()] == 0x6F,
        cpu.spec_pc() + 3 < MEMORY_SIZE,
    ensures
        cpu.step_ready(mem),
        ({
            let (c, running) = spec_execute(cpu, cpu.next_instruction(mem), mem);
            let len: int = if mem[cpu.spec_pc()] == 0x6D {
                3
            } else {
                4
            };
            &&& !running
            &&& c == CpuState {
                registers: CpuRegisters { pc: ((cpu.registers.pc + len) % 0x10000) as u16, ..cpu.registers },
                ..cpu
            }
        }),
{
}

} // verus!
