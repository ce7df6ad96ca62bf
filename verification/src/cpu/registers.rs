//! The 65816 register file and its processor status register.
use vstd::prelude::*;

use crate::numfmt::{hex_string, hex_text};

verus! {

/// The accumulator operates on 16 bits when the AccSize flag is clear.
pub const REGISTER_MODE_16_BIT: bool = false;

/// The accumulator operates on 8 bits when the AccSize flag is set.
pub const REGISTER_MODE_8_BIT: bool = true;

/// Whether bit `i` of `value` is set.
pub open spec fn bit_of(value: u8, i: u8) -> bool {
    (value >> i) & 1u8 == 1u8
}

/// The processor status flags, named after their bit in the status register
/// (NVMXDIZC, bit 0 being Carry).
#[derive(Clone, Copy, Debug, PartialEq, Eq, Structural)]
pub enum StatusFlags {
    Carry,
    Zero,
    _IRQDisable,
    _Decimal,
    _IndexSize,
    AccSize,
    Overflow,
    Negative,
}

impl StatusFlags {
    /// The bit of the status register that holds this flag.
    pub open spec fn spec_bit(self) -> u8 {
        match self {
            StatusFlags::Carry => 0,
            StatusFlags::Zero => 1,
            StatusFlags::_IRQDisable => 2,
            StatusFlags::_Decimal => 3,
            StatusFlags::_IndexSize => 4,
            StatusFlags::AccSize => 5,
            StatusFlags::Overflow => 6,
            StatusFlags::Negative => 7,
        }
    }

    /// The bit of the status register that holds this flag.
    pub fn bit(self) -> (b: u8)
        ensures
            b == self.spec_bit(),
            b < 8,
    {
        match self {
            StatusFlags::Carry => 0,
            StatusFlags::Zero => 1,
            StatusFlags::_IRQDisable => 2,
            StatusFlags::_Decimal => 3,
            StatusFlags::_IndexSize => 4,
            StatusFlags::AccSize => 5,
            StatusFlags::Overflow => 6,
            StatusFlags::Negative => 7,
        }
    }
}

/// Status register: the eight flags, and the stored byte that holds them.
///
/// NVMXDIZC
/// |||||||+> Carry
/// ||||||+-> Zero
/// |||||+--> IRQ Disable
/// ||||+---> Decimal
/// |||+----> Index Register Size (native mode). 0 = 16-bit, 1 = 8-bit.
/// ||+-----> Accumulator Register Size (native mode). 0 = 16-bit, 1 = 8-bit.
/// |+------> Overflow
/// +-------> Negative
#[derive(Debug, Clone, Copy)]
pub struct StatusRegister {
    flags: [bool; 8],
    value: u8,
}

impl StatusRegister {
    /// The flags, indexed by bit.
    pub closed spec fn spec_flags(self) -> Seq<bool> {
        self.flags@
    }

    /// The stored byte of all flags.
    pub closed spec fn spec_value(self) -> u8 {
        self.value
    }

    /// The state of one flag.
    pub open spec fn flag(self, f: StatusFlags) -> bool {
        self.spec_flags()[f.spec_bit() as int]
    }

    /// Well-formed: there are eight flags, and bit `i` of the stored byte is flag `i`.
    pub open spec fn wf(self) -> bool {
        &&& self.spec_flags().len() == 8
        &&& forall|i: u8| i < 8 ==> #[trigger] bit_of(self.spec_value(), i) == self.spec_flags()[i as int]
    }

    /// All flags clear.
    pub fn new() -> (s: Self)
        ensures
            s.wf(),
            s.spec_flags() == Seq::new(8, |i: int| false),
            s.spec_value() == 0,
    {
        let s = StatusRegister { flags: [false; 8], value: 0 };
        assert forall|i: u8| i < 8 implies #[trigger] bit_of(0u8, i) == false by {
            assert((0u8 >> i) & 1u8 == 0u8) by (bit_vector);
        }
        assert(s.flags@ =~= Seq::new(8, |i: int| false));
        s
    }

    /// The status register with flag `f` set to `on`.
    pub closed spec fn spec_with(self, f: StatusFlags, on: bool) -> Self {
        StatusRegister {
            flags: vstd::array::spec_array_update(self.flags, f.spec_bit() as int, on),
            value: if on {
                self.value | (1u8 << f.spec_bit())
            } else {
                self.value & !(1u8 << f.spec_bit())
            },
        }
    }
}

/// Setting bit `b` of `v` sets that bit and keeps the others.
proof fn lemma_bit_set(v: u8, b: u8, i: u8)
    requires
        b < 8,
        i < 8,
    ensures
        bit_of(v | (1u8 << b), i) == (i == b || bit_of(v, i)),
{
    assert(((v | (1u8 << b)) >> i) & 1u8 == 1u8 <==> (i == b || (v >> i) & 1u8 == 1u8))
        by (bit_vector)
        requires
            b < 8,
            i < 8,
    ;
}

/// Clearing bit `b` of `v` clears that bit and keeps the others.
proof fn lemma_bit_clear(v: u8, b: u8, i: u8)
    requires
        b < 8,
        i < 8,
    ensures
        bit_of(v & !(1u8 << b), i) == (i != b && bit_of(v, i)),
{
    assert(((v & !(1u8 << b)) >> i) & 1u8 == 1u8 <==> (i != b && (v >> i) & 1u8 == 1u8))
        by (bit_vector)
        requires
            b < 8,
            i < 8,
    ;
}

/// CPU registers.
///     acc:                Accumulator
///     _index_x, _index_y: Index registers.
///     stack_ptr:          Stack Pointer
///     data_bank:          Default bank for memory transfers.
///     direct_page:        Base for direct page addressing.
///     program_bank:       Bank of all instruction fetches.
///     status:             Processor status flags.
///     pc:                 Program Counter
#[derive(Debug, Clone, Copy)]
pub struct CpuRegisters {
    pub acc: u16,
    pub _index_x: u16,
    pub _index_y: u16,
    pub stack_ptr: u16,
    pub data_bank: u8,
    pub direct_page: u16,
    pub program_bank: u8,
    pub status: StatusRegister,
    pub pc: u16,
}

/// The registers after `set_flag(f)` (`on`) or `clear_flag(f)` (`!on`): the flag takes
/// the new state, and setting AccSize (8-bit mode) clears the top byte of the accumulator.
pub open spec fn with_flag(r: CpuRegisters, f: StatusFlags, on: bool) -> CpuRegisters {
    CpuRegisters {
        status: r.status.spec_with(f, on),
        acc: if on && f == StatusFlags::AccSize {
            (r.acc % 256) as u16
        } else {
            r.acc
        },
        ..r
    }
}

/// Changing one flag leaves the others as they were.
pub broadcast proof fn lemma_with_flag_flag(r: CpuRegisters, f: StatusFlags, on: bool, g: StatusFlags)
    requires
        r.wf(),
    ensures
        #[trigger] with_flag(r, f, on).flag(g) == if f == g {
            on
        } else {
            r.flag(g)
        },
{
    lemma_status_with(r.status, f, on);
}

/// Changing one flag keeps the registers well-formed.
pub broadcast proof fn lemma_with_flag_wf(r: CpuRegisters, f: StatusFlags, on: bool)
    requires
        r.wf(),
    ensures
        #[trigger] with_flag(r, f, on).wf(),
{
    lemma_status_with(r.status, f, on);
}

/// What changing a flag does.
pub broadcast group group_with_flag {
    lemma_with_flag_flag,
    lemma_with_flag_wf,
}

/// What `spec_with` does to the flags and the stored byte.
proof fn lemma_status_with(s: StatusRegister, f: StatusFlags, on: bool)
    requires
        s.wf(),
    ensures
        s.spec_with(f, on).spec_flags() == s.spec_flags().update(f.spec_bit() as int, on),
        s.spec_with(f, on).wf(),
{
    let t = s.spec_with(f, on);
    assert(t.flags@ == s.flags@.update(f.spec_bit() as int, on));
    assert forall|i: u8| i < 8 implies #[trigger] bit_of(t.spec_value(), i) == t.spec_flags()[i as int] by {
        if on {
            lemma_bit_set(s.value, f.spec_bit(), i);
        } else {
            lemma_bit_clear(s.value, f.spec_bit(), i);
        }
        assert(bit_of(s.spec_value(), i) == s.spec_flags()[i as int]);
    }
}

impl CpuRegisters {
    /// Well-formed: the status register is.
    pub open spec fn wf(self) -> bool {
        self.status.wf()
    }

    /// The state of one flag.
    pub open spec fn flag(self, f: StatusFlags) -> bool {
        self.status.flag(f)
    }

    /// The power-on register state: program bank 0x80, PC 0x8000, all flags clear,
    /// everything else 0.
    pub open spec fn is_power_on(self) -> bool {
        &&& self.acc == 0
        &&& self._index_x == 0
        &&& self._index_y == 0
        &&& self.stack_ptr == 0
        &&& self.data_bank == 0
        &&& self.direct_page == 0
        &&& self.program_bank == 0x80
        &&& self.pc == 0x8000
        &&& self.status.spec_flags() == Seq::new(8, |i: int| false)
        &&& self.status.spec_value() == 0
    }

    /// The power-on register state.
    pub fn new() -> (r: Self)
        ensures
            r.wf(),
            r.is_power_on(),
    {
        CpuRegisters {
            acc: 0,
            _index_x: 0,
            _index_y: 0,
            stack_ptr: 0,
            data_bank: 0,
            direct_page: 0,
            program_bank: 0x80,
            status: StatusRegister::new(),
            pc: 0x8000,
        }
    }

    /// Step the PC by `count`, wrapping within 16 bits.
    pub fn _step_pc(&mut self, count: u16)
        ensures
            *final(self) == (CpuRegisters { pc: old(self).pc.wrapping_add(count), ..*old(self) }),
    {
        self.pc = self.pc.wrapping_add(count);
    }

    /// Set a flag. Switching the accumulator to 8-bit mode (AccSize) also clears its top byte.
    pub fn set_flag(&mut self, flag: StatusFlags)
        requires
            old(self).wf(),
        ensures
            final(self).wf(),
            *final(self) == with_flag(*old(self), flag, true),
            final(self).status.spec_flags() == old(self).status.spec_flags().update(
                flag.spec_bit() as int,
                true,
            ),
    {
        let b = flag.bit();
        let ghost old_status = self.status;
        self.status.flags[b as usize] = true;
        self.status.value = self.status.value | (1u8 << b);
        proof {
            assert(self.status.flags@ =~= old_status.flags@.update(b as int, true));
            assert forall|i: u8| i < 8 implies #[trigger] bit_of(self.status.value, i)
                == self.status.flags@[i as int] by {
                lemma_bit_set(old_status.value, b, i);
                assert(bit_of(old_status.spec_value(), i) == old_status.spec_flags()[i as int]);
            }
        }
        if flag == StatusFlags::AccSize {
            let a = self.acc;
            self.acc = a & 0x00FF;
            assert(a & 0x00FF == a % 256) by (bit_vector);
        }
        assert(self.status.flags =~= old_status.spec_with(flag, true).flags);
        assert(self.status == old(self).status.spec_with(flag, true));
    }

    /// Clear a flag.
    pub fn clear_flag(&mut self, flag: StatusFlags)
        requires
            old(self).wf(),
        ensures
            final(self).wf(),
            *final(self) == with_flag(*old(self), flag, false),
            final(self).status.spec_flags() == old(self).status.spec_flags().update(
                flag.spec_bit() as int,
                false,
            ),
    {
        let b = flag.bit();
        let ghost old_status = self.status;
        self.status.flags[b as usize] = false;
        self.status.value = self.status.value & !(1u8 << b);
        proof {
            assert(self.status.flags@ =~= old_status.flags@.update(b as int, false));
            assert forall|i: u8| i < 8 implies #[trigger] bit_of(self.status.value, i)
                == self.status.flags@[i as int] by {
                lemma_bit_clear(old_status.value, b, i);
                assert(bit_of(old_status.spec_value(), i) == old_status.spec_flags()[i as int]);
            }
        }
        assert(self.status.flags =~= old_status.spec_with(flag, false).flags);
        assert(self.status == old(self).status.spec_with(flag, false));
    }

    /// Whether a flag is set.
    pub fn get_flag(&self, flag: StatusFlags) -> (b: bool)
        requires
            self.wf(),
        ensures
            b == self.flag(flag),
    {
        self.status.flags[flag.bit() as usize]
    }

    /// The stored byte of all of the flags.
    pub fn _get_flag_vals(&self) -> (v: u8)
        requires
            self.wf(),
        ensures
            v == self.status.spec_value(),
            forall|f: StatusFlags| bit_of(v, #[trigger] f.spec_bit()) == self.flag(f),
    {
        proof {
            assert forall|f: StatusFlags| bit_of(self.status.value, #[trigger] f.spec_bit())
                == self.flag(f) by {
                assert(f.spec_bit() < 8);
                assert(bit_of(self.status.spec_value(), f.spec_bit()) == self.status.spec_flags()[f.spec_bit() as int]);
            }
        }
        self.status.value
    }
}

/// The state of the registers as the debugger shows it: PC, accumulator and stack
/// pointer on one line, then the banks and the direct page.
pub open spec fn registers_text(r: CpuRegisters) -> Seq<char> {
    "\nPC: 0x"@ + hex_text(r.pc as nat, 6, true) + " ACC: 0x"@ + hex_text(r.acc as nat, 4, true)
        + " SP: 0x"@ + hex_text(r.stack_ptr as nat, 4, true) + "\nData Bank: 0x"@ + hex_text(
        r.data_bank as nat,
        2,
        true,
    ) + " Prog Bank: 0x"@ + hex_text(r.program_bank as nat, 2, true) + " Direct Page: 0x"@
        + hex_text(r.direct_page as nat, 4, true)
}

impl CpuRegisters {
    /// The state of the registers as text (see `registers_text`).
    pub fn state_text(&self) -> (s: String)
        ensures
            s@ == registers_text(*self),
    {
        let mut s = String::from_str("\nPC: 0x");
        let t = hex_string(self.pc as usize, 6, true);
        s.append(t.as_str());
        s.append(" ACC: 0x");
        let t = hex_string(self.acc as usize, 4, true);
        s.append(t.as_str());
        s.append(" SP: 0x");
        let t = hex_string(self.stack_ptr as usize, 4, true);
        s.append(t.as_str());
        s.append("\nData Bank: 0x");
        let t = hex_string(self.data_bank as usize, 2, true);
        s.append(t.as_str());
        s.append(" Prog Bank: 0x");
        let t = hex_string(self.program_bank as usize, 2, true);
        s.append(t.as_str());
        s.append(" Direct Page: 0x");
        let t = hex_string(self.direct_page as usize, 4, true);
        s.append(t.as_str());
        s
    }
}

} // verus!
