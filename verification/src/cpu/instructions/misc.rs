//! STP and NOP.
use vstd::prelude::*;

use super::super::CpuState;
use super::CpuInstructionFnArguments;
use crate::memory::Memory;

verus! {

/// STP: stop the processor. Nothing changes; returns `None` (stop running).
pub fn stp(_cpu: &mut CpuState, _memory: &mut Memory, _arg: &CpuInstructionFnArguments) -> (cycles: Option<u8>)
    ensures
        *final(_cpu) == *old(_cpu),
        *final(_memory) == *old(_memory),
        cycles is None,
{
    None
}

/// NOP: no operation. Nothing changes; 2 cycles (keep running).
pub fn nop(_cpu: &mut CpuState, _memory: &mut Memory, _arg: &CpuInstructionFnArguments) -> (cycles: Option<u8>)
    ensures
        *final(_cpu) == *old(_cpu),
        *final(_memory) == *old(_memory),
        cycles == Some(2u8),
{
    Some(2)
}

} // verus!
