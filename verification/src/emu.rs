//! The virtual machine and the decision of each CPU tick.
use vstd::prelude::*;

pub mod misc;

use crate::cpu::instructions::spec_execute;
use crate::cpu::CpuState;
use crate::cpu::registers::CpuRegisters;
use crate::memory::Memory;
use crate::romdata::RomData;

verus! {

/// Counts of elapsed clock cycles.
#[derive(Debug, Clone, Copy, PartialEq, Eq, Structural)]
pub struct ClockState {
    pub master_clock_cycles_elapsed: usize,
    pub cpu_clock_cycles_elapsed: usize,
    pub ppu_clock_cycles_elapsed: usize,
}

impl ClockState {
    /// No cycle elapsed.
    pub fn new() -> (c: Self)
        ensures
            c.master_clock_cycles_elapsed == 0,
            c.cpu_clock_cycles_elapsed == 0,
            c.ppu_clock_cycles_elapsed == 0,
    {
        Self { master_clock_cycles_elapsed: 0, cpu_clock_cycles_elapsed: 0, ppu_clock_cycles_elapsed: 0 }
    }
}

/// The parts of the emulated system.
pub struct VirtualMachine {
    pub cpu: CpuState,
    pub memory: Memory,
    pub romdata: RomData,
    pub clocks: ClockState,
    pub is_running: bool,
}

impl VirtualMachine {
    /// Well-formed: the CPU and the memory are.
    pub open spec fn wf(&self) -> bool {
        self.cpu.wf() && self.memory.wf()
    }

    /// A machine at power-on, with zeroed memory, blank ROM data, no elapsed cycle, not
    /// running.
    pub fn new() -> (vm: Self)
        ensures
            vm.wf(),
            vm.cpu.registers.is_power_on(),
            vm.cpu.cycles_to_pend == 0,
            vm.memory@ == Seq::new(crate::memory::MEMORY_SIZE as nat, |i: int| 0u8),
            vm.romdata.is_blank(),
            vm.clocks == (ClockState { master_clock_cycles_elapsed: 0, cpu_clock_cycles_elapsed: 0, ppu_clock_cycles_elapsed: 0 }),
            !vm.is_running,
    {
        Self {
            cpu: CpuState::new(),
            memory: Memory::new(),
            romdata: RomData::new(),
            clocks: ClockState::new(),
            is_running: false,
        }
    }
}

/// What one tick of the CPU did.
#[derive(Debug, Clone, Copy, PartialEq, Eq, Structural)]
pub enum CpuTick {
    /// An operation ran; the machine keeps running if the flag is set.
    Executed(bool),
    /// The CPU waited one cycle for the operation before; the caller lets one CPU clock
    /// period pass.
    Pended,
}

/// Whether the next tick runs without a fault: an operation that runs is ready, and a
/// wait can be counted.
pub open spec fn tick_ready(vm: &VirtualMachine) -> bool {
    &&& vm.wf()
    &&& vm.cpu.cycles_to_pend == 0 ==> vm.cpu.step_ready(vm.memory@)
    &&& vm.cpu.cycles_to_pend > 0 ==> vm.clocks.cpu_clock_cycles_elapsed < usize::MAX
}

/// Whether the next tick runs without a fault (see `tick_ready`).
pub fn tick_ready_check(vm: &VirtualMachine) -> (b: bool)
    requires
        vm.wf(),
    ensures
        b == tick_ready(vm),
{
    if vm.cpu.cycles_to_pend == 0 {
        vm.cpu.step_ready_check(&vm.memory)
    } else {
        vm.clocks.cpu_clock_cycles_elapsed < usize::MAX
    }
}

/// The CPU, the clocks and the outcome after one tick of `vm` (see `step_cpu`).
pub open spec fn spec_tick(vm: &VirtualMachine) -> (CpuState, ClockState, CpuTick) {
    if vm.cpu.cycles_to_pend == 0 {
        let (c, running) = spec_execute(vm.cpu, vm.cpu.next_instruction(vm.memory@), vm.memory@);
        (c, vm.clocks, CpuTick::Executed(running))
    } else {
        (
            CpuState { cycles_to_pend: (vm.cpu.cycles_to_pend - 1) as u8, ..vm.cpu },
            ClockState {
                cpu_clock_cycles_elapsed: (vm.clocks.cpu_clock_cycles_elapsed + 1) as usize,
                ..vm.clocks
            },
            CpuTick::Pended,
        )
    }
}

/// One tick of the CPU: with no cycle left to wait it runs the next operation, otherwise
/// it counts one CPU cycle and one cycle less to wait (see `spec_tick`).
pub fn step_cpu(vm: &mut VirtualMachine) -> (t: CpuTick)
    requires
        tick_ready(old(vm)),
    ensures
        final(vm).wf(),
        final(vm).memory == old(vm).memory,
        final(vm).romdata == old(vm).romdata,
        final(vm).is_running == old(vm).is_running,
        (final(vm).cpu, final(vm).clocks, t) == spec_tick(old(vm)),
{
    if vm.cpu.cycles_to_pend == 0 {
        let running = vm.cpu.step(&mut vm.memory);
        CpuTick::Executed(running)
    } else {
        vm.clocks.cpu_clock_cycles_elapsed = vm.clocks.cpu_clock_cycles_elapsed + 1;
        vm.cpu.cycles_to_pend = vm.cpu.cycles_to_pend - 1;
        CpuTick::Pended
    }
}

/// A tick with cycles left to wait runs nothing: it only counts one CPU cycle and one
/// cycle less to wait. A tick with none left runs the next operation, and never leaves
/// cycles to wait; over a NOP the machine keeps running and the PC moves by one.
pub proof fn lemma_tick_cases(vm: &VirtualMachine)
    requires
        vm.wf(),
    ensures
        ({
            let (c, k, t) = spec_tick(vm);
            &&& vm.cpu.cycles_to_pend > 0 ==> {
                &&& t == CpuTick::Pended
                &&& c.registers == vm.cpu.registers
                &&& c.cycles_to_pend == vm.cpu.cycles_to_pend - 1
                &&& k.cpu_clock_cycles_elapsed == (vm.clocks.cpu_clock_cycles_elapsed + 1) as usize
            }
            &&& vm.cpu.cycles_to_pend == 0 ==> t is Executed && c.cycles_to_pend == 0 && k
                == vm.clocks
            &&& vm.cpu.cycles_to_pend == 0 && vm.memory@[vm.cpu.spec_pc()] == 0xEA ==> {
                &&& t == CpuTick::Executed(true)
                &&& c.registers == CpuRegisters {
                    pc: ((vm.cpu.registers.pc + 1) % 0x10000) as u16,
                    ..vm.cpu.registers
                }
            }
        }),
{
    if vm.cpu.cycles_to_pend == 0 && vm.memory@[vm.cpu.spec_pc()] == 0xEA {
        crate::cpu::lemma_step_nop(vm.cpu, vm.memory@);
    }
}

} // verus!
