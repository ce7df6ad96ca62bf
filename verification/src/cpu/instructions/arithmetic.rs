//! Add with carry, in the form that reports whether the processor keeps running.
use vstd::prelude::*;

use super::super::registers::CpuRegisters;
use super::super::CpuState;
use super::adc;
use crate::memory::Memory;

verus! {

/// The registers after ADC #const: the accumulator, the operand and the carry added on
/// the width of the accumulator (see `adc::spec_immediate`).
pub open spec fn spec_adc_immediate(r: CpuRegisters, param: u16) -> CpuRegisters {
    adc::spec_immediate(r, param).0
}

/// ADC immediate (ADC #const). Flags affected: nv----zc. Always keeps running.
pub fn adc_immediate(cpu: &mut CpuState, _memory: &mut Memory, param: u16) -> (running: bool)
    requires
        old(cpu).wf(),
    ensures
        final(cpu).wf(),
        *final(_memory) == *old(_memory),
        final(cpu).registers == spec_adc_immediate(old(cpu).registers, param),
        final(cpu).cycles_to_pend == old(cpu).cycles_to_pend,
        running,
{
    adc::immediate(cpu, _memory, param);
    true
}

} // verus!
