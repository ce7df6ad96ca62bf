//! LDA: load the accumulator.
use vstd::prelude::*;

use super::super::registers::{with_flag, CpuRegisters, StatusFlags, REGISTER_MODE_8_BIT};
use super::super::CpuState;
use super::adc::{signed16, signed8};
use super::CpuInstructionFnArguments;
use crate::memory::{self, read_word, word_of, Memory, MEMORY_SIZE};

verus! {

broadcast use super::super::registers::group_with_flag;

/// The accumulator as a signed number of the current width.
pub open spec fn signed_acc(r: CpuRegisters) -> int {
    if r.flag(StatusFlags::AccSize) {
        signed8((r.acc as int) % 0x100)
    } else {
        signed16(r.acc as int)
    }
}

/// The registers after the n-----z- flags are set from the accumulator: N when it is
/// negative, Z when it is zero.
pub open spec fn spec_update_flags(r: CpuRegisters) -> CpuRegisters {
    let v = signed_acc(r);
    if v < 0 {
        with_flag(with_flag(r, StatusFlags::Zero, false), StatusFlags::Negative, true)
    } else if v == 0 {
        with_flag(with_flag(r, StatusFlags::Zero, true), StatusFlags::Negative, false)
    } else {
        with_flag(with_flag(r, StatusFlags::Zero, false), StatusFlags::Negative, false)
    }
}

/// LDA immediate: the accumulator takes the operand (its low byte in 8-bit mode), then
/// the flags follow it. 2 cycles in 8-bit mode, 3 in 16-bit mode.
pub open spec fn spec_immediate(r: CpuRegisters, param: u16) -> (CpuRegisters, Option<u8>) {
    if r.flag(StatusFlags::AccSize) {
        (spec_update_flags(CpuRegisters { acc: (param % 0x100) as u16, ..r }), Some(2))
    } else {
        (spec_update_flags(CpuRegisters { acc: param, ..r }), Some(3))
    }
}

/// Setting N and Z keeps the registers well-formed and changes no other flag.
pub proof fn lemma_update_flags(r: CpuRegisters)
    requires
        r.wf(),
    ensures
        spec_update_flags(r).wf(),
        spec_update_flags(r).acc == r.acc,
        forall|g: StatusFlags|
            g != StatusFlags::Zero && g != StatusFlags::Negative ==> #[trigger] spec_update_flags(
                r,
            ).flag(g) == r.flag(g),
{
    let v = signed_acc(r);
    if v < 0 {
        let q = with_flag(r, StatusFlags::Zero, false);
        assert(q.wf());
    } else if v == 0 {
        let q = with_flag(r, StatusFlags::Zero, true);
        assert(q.wf());
    } else {
        let q = with_flag(r, StatusFlags::Zero, false);
        assert(q.wf());
    }
}

/// Set the N and Z flags from the value in the accumulator.
pub fn update_flags(registers: &mut CpuRegisters)
    requires
        old(registers).wf(),
    ensures
        final(registers).wf(),
        *final(registers) == spec_update_flags(*old(registers)),
{
    let acc = registers.acc;
    let test_value: i32 = if registers.get_flag(StatusFlags::AccSize) == REGISTER_MODE_8_BIT {
        let low: u16 = acc % 0x100;
        if low >= 0x80 {
            low as i32 - 0x100
        } else {
            low as i32
        }
    } else {
        if acc >= 0x8000 {
            acc as i32 - 0x10000
        } else {
            acc as i32
        }
    };
    if test_value < 0 {
        registers.clear_flag(StatusFlags::Zero);
        registers.set_flag(StatusFlags::Negative);
    } else if test_value == 0 {
        registers.set_flag(StatusFlags::Zero);
        registers.clear_flag(StatusFlags::Negative);
    } else {
        registers.clear_flag(StatusFlags::Zero);
        registers.clear_flag(StatusFlags::Negative);
    }
}

/// LDA immediate (LDA #const, opcode 0xA9). Flags affected: n-----z-.
/// Returns 2 cycles for an 8-bit load and 3 for a 16-bit one.
pub fn immediate(cpu: &mut CpuState, memory: &mut Memory, arg: &CpuInstructionFnArguments) -> (cycles: Option<u8>)
    requires
        old(cpu).wf(),
    ensures
        final(cpu).wf(),
        *final(memory) == *old(memory),
        (final(cpu).registers, cycles) == spec_immediate(old(cpu).registers, arg.param),
        final(cpu).cycles_to_pend == old(cpu).cycles_to_pend,
{
    if cpu.registers.get_flag(StatusFlags::AccSize) == REGISTER_MODE_8_BIT {
        let param = arg.param;
        let masked_param = param & 0x00FF;
        assert(masked_param == param % 0x100) by (bit_vector)
            requires
                masked_param == param & 0x00FF,
        ;
        cpu.registers.acc = masked_param;
    } else {
        cpu.registers.acc = arg.param;
    }
    let ghost r1 = cpu.registers;
    update_flags(&mut cpu.registers);
    proof {
        lemma_update_flags(r1);
    }
    if cpu.registers.get_flag(StatusFlags::AccSize) == REGISTER_MODE_8_BIT {
        Some(2)
    } else {
        Some(3)
    }
}

/// LDA absolute (LDA addr, opcode 0xAD): load the word at the operand within the program
/// bank. Flags affected: n-----z-. 4 cycles.
pub fn absolute(cpu: &mut CpuState, memory: &mut Memory, arg: &CpuInstructionFnArguments) -> (cycles: Option<u8>)
    requires
        old(cpu).wf(),
        old(memory).wf(),
        old(cpu).registers.program_bank * 0x10000 + arg.param + 1 < MEMORY_SIZE,
    ensures
        final(cpu).wf(),
        *final(memory) == *old(memory),
        read_word(
            old(memory)@,
            old(cpu).registers.program_bank * 0x10000 + arg.param,
        ) == Some(final(cpu).registers.acc),
        final(cpu).registers == spec_update_flags(
            CpuRegisters { acc: final(cpu).registers.acc, ..old(cpu).registers },
        ),
        final(cpu).cycles_to_pend == old(cpu).cycles_to_pend,
        cycles == Some(4u8),
{
    let address = memory::compose_address(cpu.registers.program_bank, arg.param);
    let value_at_address = match memory.get_word(address) {
        Ok(w) => w,
        Err(_) => 0,
    };
    cpu.registers.acc = value_at_address;
    update_flags(&mut cpu.registers);
    Some(4)
}

/// LDA absolute long (LDA long, opcode 0xAF): load the word at the operand within the
/// bank given with it. Flags affected: n-----z-. 5 cycles.
pub fn absolute_long(cpu: &mut CpuState, memory: &mut Memory, arg: &CpuInstructionFnArguments) -> (cycles: Option<u8>)
    requires
        old(cpu).wf(),
        old(memory).wf(),
        arg.bank is Some,
        arg.bank->0 * 0x10000 + arg.param + 1 < MEMORY_SIZE,
    ensures
        final(cpu).wf(),
        *final(memory) == *old(memory),
        read_word(old(memory)@, arg.bank->0 * 0x10000 + arg.param) == Some(
            final(cpu).registers.acc,
        ),
        final(cpu).registers == spec_update_flags(
            CpuRegisters { acc: final(cpu).registers.acc, ..old(cpu).registers },
        ),
        final(cpu).cycles_to_pend == old(cpu).cycles_to_pend,
        cycles == Some(5u8),
{
    let bank = match arg.bank {
        Some(b) => b,
        None => 0,
    };
    let address = memory::compose_address(bank, arg.param);
    let value_at_address = match memory.get_word(address) {
        Ok(w) => w,
        Err(_) => 0,
    };
    cpu.registers.acc = value_at_address;
    update_flags(&mut cpu.registers);
    Some(5)
}

/// LDA direct page (LDA dp, opcode 0xA5). Not carried out yet: nothing changes; 3 cycles.
pub fn direct_page(cpu: &mut CpuState, memory: &mut Memory, arg: &CpuInstructionFnArguments) -> (cycles: Option<u8>)
    ensures
        *final(cpu) == *old(cpu),
        *final(memory) == *old(memory),
        cycles == Some(3u8),
{
    Some(3)
}

/// LDA immediate loads: the accumulator takes the operand (its low byte in 8-bit mode),
/// Z tells whether it is 0 and N gives its top bit; every other flag and register is kept.
pub proof fn lemma_lda_immediate_loads(r: CpuRegisters, param: u16)
    requires
        r.wf(),
    ensures
        ({
            let (r2, cycles) = spec_immediate(r, param);
            &&& r2.wf()
            &&& r2 == CpuRegisters { acc: r2.acc, status: r2.status, ..r }
            &&& forall|g: StatusFlags|
                g != StatusFlags::Zero && g != StatusFlags::Negative ==> #[trigger] r2.flag(g)
                    == r.flag(g)
            &&& r2.flag(StatusFlags::Zero) == (r2.acc == 0)
            &&& r.flag(StatusFlags::AccSize) ==> {
                &&& cycles == Some(2u8)
                &&& r2.acc == param % 0x100
                &&& r2.flag(StatusFlags::Negative) == (r2.acc >= 0x80)
            }
            &&& !r.flag(StatusFlags::AccSize) ==> {
                &&& cycles == Some(3u8)
                &&& r2.acc == param
                &&& r2.flag(StatusFlags::Negative) == (r2.acc >= 0x8000)
            }
        }),
{
    let r0 = if r.flag(StatusFlags::AccSize) {
        CpuRegisters { acc: (param % 0x100) as u16, ..r }
    } else {
        CpuRegisters { acc: param, ..r }
    };
    assert(r0.wf());
    assert(forall|g: StatusFlags| #[trigger] r0.flag(g) == r.flag(g));
    lemma_update_flags(r0);
    let r2 = spec_update_flags(r0);
    let v = signed_acc(r0);
    if v < 0 {
        let q = with_flag(r0, StatusFlags::Zero, false);
        assert(q.wf());
        assert(r2.flag(StatusFlags::Zero) == q.flag(StatusFlags::Zero));
    } else if v == 0 {
        let q = with_flag(r0, StatusFlags::Zero, true);
        assert(q.wf());
        assert(r2.flag(StatusFlags::Zero) == q.flag(StatusFlags::Zero));
    } else {
        let q = with_flag(r0, StatusFlags::Zero, false);
        assert(q.wf());
        assert(r2.flag(StatusFlags::Zero) == q.flag(StatusFlags::Zero));
    }
}

} // verus!
