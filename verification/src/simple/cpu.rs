//! The CPU of the minimal machine: every fetch reads 0, which decodes to a no-op.
use vstd::prelude::*;

use super::memory::Memory;

verus! {

/// The registers of the minimal CPU.
#[derive(Debug)]
pub struct CpuState {
    acc: u16,
    pc: u16,
    sp: u16,
    flags: u8,
    direct_page: u16,
    data_bank: u8,
    prog_bank: u8,
}

/// The operations of the minimal CPU.
#[derive(Debug, Clone, Copy, PartialEq, Eq, Structural)]
pub enum CpuOpcode {
    ADD { x: u16 },
    NOP,
}

/// An operation and its parameter.
#[derive(Debug, Clone, Copy)]
pub struct CpuInstruction {
    pub opcode: CpuOpcode,
    pub parameters: u16,
}

impl CpuState {
    /// The accumulator.
    pub closed spec fn spec_acc(&self) -> u16 {
        self.acc
    }

    /// The program counter.
    pub closed spec fn spec_pc(&self) -> u16 {
        self.pc
    }

    /// Every register is zero.
    pub closed spec fn is_zeroed(&self) -> bool {
        &&& self.acc == 0
        &&& self.pc == 0
        &&& self.sp == 0
        &&& self.flags == 0
        &&& self.direct_page == 0
        &&& self.data_bank == 0
        &&& self.prog_bank == 0
    }

    /// The state after `execute(inst)`: `ADD` adds its operand to the accumulator,
    /// `NOP` changes nothing.
    pub closed spec fn after(&self, inst: CpuInstruction) -> CpuState {
        match inst.opcode {
            CpuOpcode::ADD { x } => CpuState { acc: (self.acc + x) as u16, ..*self },
            CpuOpcode::NOP => *self,
        }
    }

    /// All registers zero.
    pub fn new() -> (c: Self)
        ensures
            c.is_zeroed(),
            c.spec_acc() == 0,
            c.spec_pc() == 0,
    {
        Self { acc: 0x0000, pc: 0x0000, sp: 0x0000, flags: 0x00, direct_page: 0x0000, data_bank: 0x00, prog_bank: 0x00 }
    }

    /// The program counter.
    pub fn example(&self) -> (pc: u16)
        ensures
            pc == self.spec_pc(),
    {
        self.pc
    }

    /// The program counter.
    pub fn pc(&self) -> (pc: u16)
        ensures
            pc == self.spec_pc(),
    {
        self.pc
    }

    /// The accumulator.
    pub fn acc(&self) -> (acc: u16)
        ensures
            acc == self.spec_acc(),
    {
        self.acc
    }

    /// The registers with the program counter set to `pc`.
    pub closed spec fn with_pc(&self, pc: u16) -> CpuState {
        CpuState { pc, ..*self }
    }

    /// Fetch, decode and execute the next instruction, a no-op, and move the program
    /// counter past its opcode (16 bits, wrapping); nothing else changes.
    pub fn step(&mut self, mem: &mut Memory)
        ensures
            *final(self) == old(self).with_pc(((old(self).spec_pc() + 1) % 0x10000) as u16),
            final(self).spec_pc() == (old(self).spec_pc() + 1) % 0x10000,
            final(self).spec_acc() == old(self).spec_acc(),
            final(mem)@ == old(mem)@,
    {
        let next_instruction = self.fetch(mem);
        let next_decoded_instruction = self.decode(next_instruction);
        self.execute(next_decoded_instruction);
        self.pc = self.pc.wrapping_add(1);
    }

    /// Fetch the next instruction word from memory: always 0.
    pub fn fetch(&self, memory: &Memory) -> (w: u16)
        ensures
            w == 0,
    {
        0x0000
    }

    /// Decode a word into an instruction: always the no-op.
    pub fn decode(&self, data: u16) -> (i: CpuInstruction)
        ensures
            i.opcode == CpuOpcode::NOP,
            i.parameters == 0,
    {
        CpuInstruction::new()
    }

    /// Execute an instruction. An `ADD` must not carry out of 16 bits.
    pub fn execute(&mut self, inst: CpuInstruction)
        requires
            inst.opcode matches CpuOpcode::ADD { x } ==> old(self).spec_acc() + x <= u16::MAX,
        ensures
            *final(self) == old(self).after(inst),
            inst.opcode matches CpuOpcode::ADD { x } ==> final(self).spec_acc() == old(self).spec_acc() + x,
            inst.opcode == CpuOpcode::NOP ==> *final(self) == *old(self),
    {
        match inst.opcode {
            CpuOpcode::ADD { x } => self.acc = self.acc + x,
            CpuOpcode::NOP => (),
        }
    }
}

impl CpuInstruction {
    /// The no-op, with parameter 0.
    pub fn new() -> (i: Self)
        ensures
            i.opcode == CpuOpcode::NOP,
            i.parameters == 0,
    {
        Self { opcode: CpuOpcode::NOP, parameters: 0 }
    }

    /// Set the operation from its code; only 0 (the no-op) is implemented.
    pub fn set_opcode(&mut self, data: u16)
        requires
            data == 0,
        ensures
            final(self).opcode == CpuOpcode::NOP,
            final(self).parameters == old(self).parameters,
    {
        self.opcode = CpuOpcode::NOP;
    }
}

} // verus!
