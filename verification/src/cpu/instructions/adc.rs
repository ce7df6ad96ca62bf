//! ADC: add with carry.
use vstd::prelude::*;

use super::super::registers::{
    with_flag, CpuRegisters, StatusFlags, REGISTER_MODE_8_BIT,
};
use super::super::CpuState;
use crate::memory::Memory;

verus! {

broadcast use super::super::registers::group_with_flag;

/// A byte read as a two's complement number.
pub open spec fn signed8(x: int) -> int {
    if x >= 0x80 {
        x - 0x100
    } else {
        x
    }
}

/// A word read as a two's complement number.
pub open spec fn signed16(x: int) -> int {
    if x >= 0x8000 {
        x - 0x10000
    } else {
        x
    }
}

/// Whether the top bit of a `width`-bit value is set (`half` is 2^(width-1)).
pub open spec fn top_bit(x: int, half: int) -> bool {
    x >= half
}

/// The registers after adding `m` and the carry to the low `2 * half` bits of the
/// accumulator: C is the carry out, V is set when both operands have the same sign and
/// the result another, N is the top bit of the result, the accumulator takes the result
/// (its upper byte cleared in 8-bit mode), and Z is set when it is 0.
pub open spec fn add_with_carry(r: CpuRegisters, m: int, half: int) -> CpuRegisters {
    let a = (r.acc as int) % (2 * half);
    let sum = a + m + carry_bit(r);
    let res = sum % (2 * half);
    let r1 = with_flag(
        with_flag(
            with_flag(r, StatusFlags::Carry, sum >= 2 * half),
            StatusFlags::Overflow,
            top_bit(a, half) == top_bit(m, half) && top_bit(res, half) != top_bit(a, half),
        ),
        StatusFlags::Negative,
        top_bit(res, half),
    );
    with_flag(CpuRegisters { acc: res as u16, ..r1 }, StatusFlags::Zero, res == 0)
}

/// ADC immediate: the registers afterwards and the cycles to pend. The accumulator, the
/// operand and the carry are added on 8 bits (low bytes) in 8-bit mode, taking 2 cycles,
/// and on 16 bits otherwise, taking 3 (see `add_with_carry`).
pub open spec fn spec_immediate(r: CpuRegisters, param: u16) -> (CpuRegisters, Option<u8>) {
    if r.flag(StatusFlags::AccSize) {
        (add_with_carry(r, (param as int) % 0x100, 0x80), Some(2))
    } else {
        (add_with_carry(r, param as int, 0x8000), Some(3))
    }
}

/// Set `flag` when `on`, clear it otherwise.
fn put_flag(r: &mut CpuRegisters, flag: StatusFlags, on: bool)
    requires
        old(r).wf(),
    ensures
        final(r).wf(),
        *final(r) == with_flag(*old(r), flag, on),
{
    if on {
        r.set_flag(flag);
    } else {
        r.clear_flag(flag);
    }
}

/// ADC immediate (ADC #const, opcode 0x69): add the operand and the carry to the
/// accumulator. Flags affected: nv----zc. Returns the number of cycles to pend.
pub fn immediate(cpu: &mut CpuState, _memory: &mut Memory, param: u16) -> (cycles: Option<u8>)
    requires
        old(cpu).wf(),
    ensures
        final(cpu).wf(),
        *final(_memory) == *old(_memory),
        (final(cpu).registers, cycles) == spec_immediate(old(cpu).registers, param),
        final(cpu).cycles_to_pend == old(cpu).cycles_to_pend,
{
    let ghost r0 = cpu.registers;
    let carry: u32 = if cpu.registers.get_flag(StatusFlags::Carry) {
        1
    } else {
        0
    };
    let eight_bit = cpu.registers.get_flag(StatusFlags::AccSize) == REGISTER_MODE_8_BIT;
    // In 8-bit mode all of the math is on the low bytes.
    let (modulus, half): (u32, u32) = if eight_bit {
        (0x100, 0x80)
    } else {
        (0x10000, 0x8000)
    };
    let a: u32 = cpu.registers.acc as u32 % modulus;
    let m: u32 = param as u32 % modulus;
    let sum: u32 = a + m + carry;
    // Unsigned overflow sets the carry.
    put_flag(&mut cpu.registers, StatusFlags::Carry, sum >= modulus);
    let res: u32 = sum % modulus;
    // Two operands of one sign giving a result of the other set the overflow flag.
    put_flag(
        &mut cpu.registers,
        StatusFlags::Overflow,
        (a >= half) == (m >= half) && (res >= half) != (a >= half),
    );
    put_flag(&mut cpu.registers, StatusFlags::Negative, res >= half);
    assert(cpu.registers.flag(StatusFlags::AccSize) == r0.flag(StatusFlags::AccSize));
    cpu.registers.acc = res as u16;
    let ghost r3 = cpu.registers;
    put_flag(&mut cpu.registers, StatusFlags::Zero, res == 0);
    assert(with_flag(r3, StatusFlags::Zero, res == 0).flag(StatusFlags::AccSize) == r3.flag(
        StatusFlags::AccSize,
    ));
    if eight_bit {
        assert(cpu.registers == spec_immediate(r0, param).0);
        Some(2)
    } else {
        assert(cpu.registers == spec_immediate(r0, param).0);
        Some(3)
    }
}

/// ADC absolute (opcode 0x6D for short, 0x6F for long). Not carried out yet: nothing
/// changes, and the processor stops.
pub fn absolute(cpu: &mut CpuState, mem: &mut Memory, param: u16) -> (cycles: Option<u8>)
    requires
        old(cpu).wf(),
    ensures
        *final(cpu) == *old(cpu),
        *final(mem) == *old(mem),
        cycles is None,
{
    if cpu.registers.get_flag(StatusFlags::AccSize) == REGISTER_MODE_8_BIT {
    } else {
    }
    None
}

/// The carry flag as a number.
pub open spec fn carry_bit(r: CpuRegisters) -> int {
    if r.flag(StatusFlags::Carry) {
        1
    } else {
        0
    }
}

/// ADC immediate adds with carry: the new accumulator and the carry out make up the
/// sum of the old accumulator, the operand and the carry in, on 8 bits (low bytes) in
/// 8-bit mode and on 16 bits otherwise; Z tells whether the result is 0, N gives its top
/// bit, and V tells whether two operands of one sign gave a result of the other. The
/// width mode, the other flags and the other registers are kept.
pub proof fn lemma_adc_immediate_adds(r: CpuRegisters, param: u16)
    requires
        r.wf(),
    ensures
        ({
            let (r2, cycles) = spec_immediate(r, param);
            &&& r2.wf()
            &&& r2.flag(StatusFlags::AccSize) == r.flag(StatusFlags::AccSize)
            &&& r2.flag(StatusFlags::_IRQDisable) == r.flag(StatusFlags::_IRQDisable)
            &&& r2.flag(StatusFlags::_Decimal) == r.flag(StatusFlags::_Decimal)
            &&& r2.flag(StatusFlags::_IndexSize) == r.flag(StatusFlags::_IndexSize)
            &&& r2.flag(StatusFlags::Zero) == (r2.acc == 0)
            &&& r2 == CpuRegisters { acc: r2.acc, status: r2.status, ..r }
            &&& r.flag(StatusFlags::AccSize) ==> {
                let a = (r.acc as int) % 0x100;
                let m = (param as int) % 0x100;
                &&& cycles == Some(2u8)
                &&& r2.acc < 0x100
                &&& r2.acc + 0x100 * carry_bit(r2) == a + m + carry_bit(r)
                &&& r2.flag(StatusFlags::Negative) == (r2.acc >= 0x80)
                &&& r2.flag(StatusFlags::Overflow) == ((a >= 0x80) == (m >= 0x80) && (r2.acc
                    >= 0x80) != (a >= 0x80))
            }
            &&& !r.flag(StatusFlags::AccSize) ==> {
                &&& cycles == Some(3u8)
                &&& r2.acc + 0x10000 * carry_bit(r2) == r.acc + param + carry_bit(r)
                &&& r2.flag(StatusFlags::Negative) == (r2.acc >= 0x8000)
                &&& r2.flag(StatusFlags::Overflow) == ((r.acc >= 0x8000) == (param >= 0x8000) && (
                r2.acc >= 0x8000) != (r.acc >= 0x8000))
            }
        }),
{
    let half: int = if r.flag(StatusFlags::AccSize) {
        0x80
    } else {
        0x8000
    };
    let m: int = if r.flag(StatusFlags::AccSize) {
        (param as int) % 0x100
    } else {
        param as int
    };
    let a = (r.acc as int) % (2 * half);
    let sum = a + m + carry_bit(r);
    let res = sum % (2 * half);
    let r0 = with_flag(r, StatusFlags::Carry, sum >= 2 * half);
    assert(r0.wf());
    let r1 = with_flag(
        r0,
        StatusFlags::Overflow,
        top_bit(a, half) == top_bit(m, half) && top_bit(res, half) != top_bit(a, half),
    );
    assert(r1.wf());
    let r2 = with_flag(r1, StatusFlags::Negative, top_bit(res, half));
    assert(r2.wf());
    let r3 = CpuRegisters { acc: res as u16, ..r2 };
    assert(r3.wf());
    let r4 = with_flag(r3, StatusFlags::Zero, res == 0);
    assert(r4.wf());
    assert(forall|g: StatusFlags| #[trigger] r3.flag(g) == r2.flag(g));
    assert(r1.flag(StatusFlags::Carry) == r0.flag(StatusFlags::Carry));
    assert(r2.flag(StatusFlags::Carry) == r1.flag(StatusFlags::Carry));
    assert(r4.flag(StatusFlags::Carry) == r3.flag(StatusFlags::Carry));
    assert(r4.flag(StatusFlags::Negative) == r3.flag(StatusFlags::Negative));
    assert(r4.flag(StatusFlags::Overflow) == r3.flag(StatusFlags::Overflow));
    assert(r2.flag(StatusFlags::Overflow) == r1.flag(StatusFlags::Overflow));
    assert(r4.flag(StatusFlags::AccSize) == r.flag(StatusFlags::AccSize));
    assert(r4.flag(StatusFlags::_IRQDisable) == r.flag(StatusFlags::_IRQDisable));
    assert(r4.flag(StatusFlags::_Decimal) == r.flag(StatusFlags::_Decimal));
    assert(r4.flag(StatusFlags::_IndexSize) == r.flag(StatusFlags::_IndexSize));
    assert(r4 == spec_immediate(r, param).0);
    assert(r4.flag(StatusFlags::Carry) == (sum >= 2 * half));
    if r.flag(StatusFlags::AccSize) {
        assert(0 <= sum < 0x200);
        assert(res == if sum >= 0x100 { sum - 0x100 } else { sum }) by (nonlinear_arith)
            requires
                res == sum % (2 * half),
                half == 0x80,
                0 <= sum < 0x200,
        ;
    } else {
        assert(r.acc as int % 0x10000 == r.acc as int);
        assert(0 <= sum < 0x20000);
        assert(res == if sum >= 0x10000 { sum - 0x10000 } else { sum }) by (nonlinear_arith)
            requires
                res == sum % (2 * half),
                half == 0x8000,
                0 <= sum < 0x20000,
        ;
    }
}

} // verus!
