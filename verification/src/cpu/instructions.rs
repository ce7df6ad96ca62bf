//! Decoding and execution of 65816 instructions.
use vstd::prelude::*;

use super::registers::{with_flag, CpuRegisters, StatusFlags, REGISTER_MODE_8_BIT};
use super::CpuState;
use crate::memory::{self, word_of, Memory, MEMORY_SIZE};

pub mod adc;
pub mod arithmetic;
pub mod lda;
pub mod misc;

verus! {

/// Number of opcodes.
pub const NUM_INSTRUCTIONS: usize = 256;

/// The parameter of an instruction starts at the byte after the opcode.
pub const INST_PARAM_OFFSET: u16 = 1;

/// The mnemonic of an opcode.
#[derive(Debug, Clone, Copy, PartialEq, Eq, Structural)]
pub enum CpuOpcode {
    Adc,
    Lda,
    Stp,
    Nop,
}

/// The width of the parameter of an operation.
#[derive(Debug, Clone, Copy, PartialEq, Eq, Structural)]
pub enum CpuParamWidth {
    /// Depends on the accumulator size.
    Variable,
    Implied,
    /// One byte.
    Byte,
    /// Two bytes.
    Word,
    /// Three bytes: a bank, then a word.
    Long,
}

impl CpuParamWidth {
    /// The number of bytes that the PC moves past an operation of this width
    /// (opcode included); 0 for `Variable`.
    pub open spec fn spec_len(self) -> u16 {
        match self {
            CpuParamWidth::Variable => 0,
            CpuParamWidth::Implied => 1,
            CpuParamWidth::Byte => 2,
            CpuParamWidth::Word => 3,
            CpuParamWidth::Long => 4,
        }
    }

    /// The number of bytes that the PC moves past an operation of this width.
    pub fn len(self) -> (n: u16)
        ensures
            n == self.spec_len(),
    {
        match self {
            CpuParamWidth::Variable => 0,
            CpuParamWidth::Implied => 1,
            CpuParamWidth::Byte => 2,
            CpuParamWidth::Word => 3,
            CpuParamWidth::Long => 4,
        }
    }
}

/// The routine that carries out an operation.
#[derive(Debug, Clone, Copy, PartialEq, Eq, Structural)]
pub enum InstructionHandler {
    AdcImmediate,
    AdcAbsolute,
    LdaImmediate,
    Stp,
    Nop,
}

/// A decoded opcode: its mnemonic, the width of its parameter and its routine.
#[derive(Debug, Clone, Copy, PartialEq, Eq, Structural)]
pub struct CpuInstruction {
    pub opcode: CpuOpcode,
    pub width: CpuParamWidth,
    pub function: InstructionHandler,
}

/// The parameter of an operation: an optional bank, and a 16-bit value
/// (widened if it was a byte).
#[derive(Debug, Clone, Copy, PartialEq, Eq, Structural)]
pub struct CpuInstructionFnArguments {
    pub bank: Option<u8>,
    pub param: u16,
}

/// The opcode table. Opcodes that are not implemented stop the processor.
pub open spec fn spec_instruction_map(opcode: u8) -> CpuInstruction {
    if opcode == 0x69 {
        CpuInstruction {
            opcode: CpuOpcode::Adc,
            width: CpuParamWidth::Variable,
            function: InstructionHandler::AdcImmediate,
        }
    } else if opcode == 0x6D {
        CpuInstruction {
            opcode: CpuOpcode::Adc,
            width: CpuParamWidth::Word,
            function: InstructionHandler::AdcAbsolute,
        }
    } else if opcode == 0x6F {
        CpuInstruction {
            opcode: CpuOpcode::Adc,
            width: CpuParamWidth::Long,
            function: InstructionHandler::AdcAbsolute,
        }
    } else if opcode == 0xA9 {
        CpuInstruction {
            opcode: CpuOpcode::Lda,
            width: CpuParamWidth::Variable,
            function: InstructionHandler::LdaImmediate,
        }
    } else if opcode == 0xEA {
        CpuInstruction {
            opcode: CpuOpcode::Nop,
            width: CpuParamWidth::Implied,
            function: InstructionHandler::Nop,
        }
    } else {
        CpuInstruction {
            opcode: CpuOpcode::Stp,
            width: CpuParamWidth::Implied,
            function: InstructionHandler::Stp,
        }
    }
}

/// Look an opcode up in the opcode table.
pub fn instruction_map(opcode: u8) -> (i: CpuInstruction)
    ensures
        i == spec_instruction_map(opcode),
{
    if opcode == 0x69 {
        CpuInstruction {
            opcode: CpuOpcode::Adc,
            width: CpuParamWidth::Variable,
            function: InstructionHandler::AdcImmediate,
        }
    } else if opcode == 0x6D {
        CpuInstruction {
            opcode: CpuOpcode::Adc,
            width: CpuParamWidth::Word,
            function: InstructionHandler::AdcAbsolute,
        }
    } else if opcode == 0x6F {
        CpuInstruction {
            opcode: CpuOpcode::Adc,
            width: CpuParamWidth::Long,
            function: InstructionHandler::AdcAbsolute,
        }
    } else if opcode == 0xA9 {
        CpuInstruction {
            opcode: CpuOpcode::Lda,
            width: CpuParamWidth::Variable,
            function: InstructionHandler::LdaImmediate,
        }
    } else if opcode == 0xEA {
        CpuInstruction {
            opcode: CpuOpcode::Nop,
            width: CpuParamWidth::Implied,
            function: InstructionHandler::Nop,
        }
    } else {
        CpuInstruction {
            opcode: CpuOpcode::Stp,
            width: CpuParamWidth::Implied,
            function: InstructionHandler::Stp,
        }
    }
}

/// Whether the parameter bytes of `inst`, which follow the opcode at the PC, are in range.
pub open spec fn fetch_ready(cpu: CpuState, inst: CpuInstruction) -> bool {
    let loc = cpu.spec_pc() + 1;
    match inst.width {
        CpuParamWidth::Implied => true,
        CpuParamWidth::Variable => if cpu.registers.flag(StatusFlags::AccSize) {
            loc < MEMORY_SIZE
        } else {
            loc + 1 < MEMORY_SIZE
        },
        CpuParamWidth::Byte => loc < MEMORY_SIZE,
        CpuParamWidth::Word => loc + 1 < MEMORY_SIZE,
        CpuParamWidth::Long => loc + 2 < MEMORY_SIZE,
    }
}

/// The parameter of `inst`, read from the bytes after the opcode at the PC.
pub open spec fn fetched_args(cpu: CpuState, inst: CpuInstruction, mem: Seq<u8>) -> CpuInstructionFnArguments {
    let loc = cpu.spec_pc() + 1;
    match inst.width {
        CpuParamWidth::Implied => CpuInstructionFnArguments { bank: None, param: 0 },
        CpuParamWidth::Variable => if cpu.registers.flag(StatusFlags::AccSize) {
            CpuInstructionFnArguments { bank: None, param: mem[loc] as u16 }
        } else {
            CpuInstructionFnArguments { bank: None, param: word_of(mem[loc], mem[loc + 1]) }
        },
        CpuParamWidth::Byte => CpuInstructionFnArguments { bank: None, param: mem[loc] as u16 },
        CpuParamWidth::Word => CpuInstructionFnArguments {
            bank: None,
            param: word_of(mem[loc], mem[loc + 1]),
        },
        CpuParamWidth::Long => CpuInstructionFnArguments {
            bank: Some(mem[loc]),
            param: word_of(mem[loc + 1], mem[loc + 2]),
        },
    }
}

/// The registers after the routine `h`, and the cycles it asks to wait
/// (`None` when the processor stops).
pub open spec fn handler_effect(
    h: InstructionHandler,
    cpu: CpuState,
    args: CpuInstructionFnArguments,
) -> (CpuRegisters, Option<u8>) {
    match h {
        InstructionHandler::AdcImmediate => adc::spec_immediate(cpu.registers, args.param),
        InstructionHandler::AdcAbsolute => (cpu.registers, None),
        InstructionHandler::LdaImmediate => lda::spec_immediate(cpu.registers, args.param),
        InstructionHandler::Stp => (cpu.registers, None),
        InstructionHandler::Nop => (cpu.registers, Some(2)),
    }
}

/// How far the PC moves past an operation of width `width`; a `Variable` operand is
/// one byte in 8-bit accumulator mode and two in 16-bit mode.
pub open spec fn pc_increment(width: CpuParamWidth, r: CpuRegisters) -> u16 {
    if width == CpuParamWidth::Variable {
        if r.flag(StatusFlags::AccSize) {
            CpuParamWidth::Byte.spec_len()
        } else {
            CpuParamWidth::Word.spec_len()
        }
    } else {
        width.spec_len()
    }
}

/// Whether executing `inst` runs without a fault: its parameter bytes are in range.
pub open spec fn execute_ready(cpu: CpuState, inst: CpuInstruction, mem: Seq<u8>) -> bool {
    fetch_ready(cpu, inst)
}

/// The CPU after executing `inst`, and whether it keeps running: the routine runs on the
/// fetched parameter, then the PC (16 bits, wrapping) moves past the operation.
pub open spec fn spec_execute(cpu: CpuState, inst: CpuInstruction, mem: Seq<u8>) -> (CpuState, bool) {
    let (r, cycles) = handler_effect(inst.function, cpu, fetched_args(cpu, inst, mem));
    let inc = pc_increment(inst.width, r);
    (
        CpuState {
            registers: CpuRegisters { pc: ((r.pc + inc) % 0x10000) as u16, ..r },
            ..cpu
        },
        cycles is Some,
    )
}

/// Fetch the opcode at the PC and look it up.
pub fn fetch_and_decode(cpu: &mut CpuState, memory: &Memory) -> (i: CpuInstruction)
    requires
        memory.wf(),
    ensures
        *final(cpu) == *old(cpu),
        i == old(cpu).next_instruction(memory@),
{
    let address = cpu.get_pc();
    let byte = match memory.get_byte(address) {
        Ok(b) => b,
        Err(_) => 0,
    };
    instruction_map(byte)
}

/// Execute one instruction: fetch its parameter, run it, and move the PC past it.
/// Returns `false` if the processor has stopped.
pub fn execute(cpu: &mut CpuState, inst: CpuInstruction, memory: &mut Memory) -> (running: bool)
    requires
        old(cpu).wf(),
        old(memory).wf(),
        execute_ready(*old(cpu), inst, old(memory)@),
    ensures
        final(cpu).wf(),
        *final(memory) == *old(memory),
        (*final(cpu), running) == spec_execute(*old(cpu), inst, old(memory)@),
{
    let arg = fetch_args(cpu, inst, memory);
    let result = match inst.function {
        InstructionHandler::AdcImmediate => adc::immediate(cpu, memory, arg.param),
        InstructionHandler::AdcAbsolute => adc::absolute(cpu, memory, arg.param),
        InstructionHandler::LdaImmediate => lda::immediate(cpu, memory, &arg),
        InstructionHandler::Stp => misc::stp(cpu, memory, &arg),
        InstructionHandler::Nop => misc::nop(cpu, memory, &arg),
    };
    let running = match result {
        Some(_cycle_count) => true,
        None => false,
    };
    let inc: u16 = if inst.width == CpuParamWidth::Variable {
        if cpu.registers.get_flag(StatusFlags::AccSize) == REGISTER_MODE_8_BIT {
            CpuParamWidth::Byte.len()
        } else {
            CpuParamWidth::Word.len()
        }
    } else {
        inst.width.len()
    };
    cpu.registers.pc = cpu.registers.pc.wrapping_add(inc);
    running
}

/// Read the parameter of `inst` from the bytes after the opcode at the PC.
fn fetch_args(cpu: &CpuState, inst: CpuInstruction, memory: &Memory) -> (arg: CpuInstructionFnArguments)
    requires
        cpu.wf(),
        memory.wf(),
        fetch_ready(*cpu, inst),
    ensures
        arg == fetched_args(*cpu, inst, memory@),
{
    let parameter_location: usize = cpu.get_pc() + INST_PARAM_OFFSET as usize;
    let mut arg = CpuInstructionFnArguments { bank: None, param: 0 };
    match inst.width {
        CpuParamWidth::Implied => {},
        CpuParamWidth::Variable => {
            if cpu.registers.get_flag(StatusFlags::AccSize) == REGISTER_MODE_8_BIT {
                arg.param = read_byte_param(memory, parameter_location) as u16;
            } else {
                arg.param = read_word_param(memory, parameter_location);
            }
        },
        CpuParamWidth::Byte => {
            arg.param = read_byte_param(memory, parameter_location) as u16;
        },
        CpuParamWidth::Word => {
            arg.param = read_word_param(memory, parameter_location);
        },
        CpuParamWidth::Long => {
            arg.bank = Some(read_byte_param(memory, parameter_location));
            arg.param = read_word_param(memory, parameter_location + 1);
        },
    }
    arg
}

/// Whether executing `inst` runs without a fault (see `execute_ready`).
pub fn execute_ready_check(cpu: &CpuState, inst: CpuInstruction, memory: &Memory) -> (b: bool)
    requires
        cpu.wf(),
        memory.wf(),
    ensures
        b == execute_ready(*cpu, inst, memory@),
{
    let loc: usize = cpu.get_pc() + INST_PARAM_OFFSET as usize;
    let fetch_ok = match inst.width {
        CpuParamWidth::Implied => true,
        CpuParamWidth::Variable => {
            if cpu.registers.get_flag(StatusFlags::AccSize) == REGISTER_MODE_8_BIT {
                loc < MEMORY_SIZE
            } else {
                loc + 1 < MEMORY_SIZE
            }
        },
        CpuParamWidth::Byte => loc < MEMORY_SIZE,
        CpuParamWidth::Word => loc + 1 < MEMORY_SIZE,
        CpuParamWidth::Long => loc + 2 < MEMORY_SIZE,
    };
    fetch_ok
}

/// Read a parameter byte that is known to be in range.
fn read_byte_param(memory: &Memory, location: usize) -> (b: u8)
    requires
        memory.wf(),
        location < MEMORY_SIZE,
    ensures
        b == memory@[location as int],
{
    match memory.get_byte(location) {
        Ok(b) => b,
        Err(_) => 0,
    }
}

/// Read a parameter word that is known to be in range.
fn read_word_param(memory: &Memory, location: usize) -> (w: u16)
    requires
        memory.wf(),
        location + 1 < MEMORY_SIZE,
    ensures
        w == word_of(memory@[location as int], memory@[location + 1]),
{
    match memory.get_word(location) {
        Ok(w) => w,
        Err(_) => 0,
    }
}

} // verus!
