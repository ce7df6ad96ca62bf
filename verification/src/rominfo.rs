//! Descriptions of a ROM's layout: its memory map and its header bytes.
use vstd::prelude::*;

verus! {

/// Length of the ROM header, in bytes.
pub const HEADER_LENGTH_BYTES: usize = 32;

/// Length of the optional header extension, in bytes.
pub const OPT_HEADER_EXTENSION_BYTES: usize = 16;

/// LoRom and ExLoRom banks are 32 KiB.
pub const LO_ROM_BANK_SIZE_BYTES: usize = 32 * 1024;

/// HiRom and ExHiRom banks are 64 KiB.
pub const HI_ROM_BANK_SIZE_BYTES: usize = 64 * 1024;

/// LoRom starts at bank $80 ($808000) and is mirrored to $008000.
pub const LO_ROM_BANK_ADDR: usize = 0x80;

/// HiRom runs from bank $C0 ($C00000) to $FFFFFF.
pub const HI_ROM_BANK_ADDR: usize = 0xC0;

/// LoRom banks, and the mirrored banks of both layouts, sit at $XX8000.
pub const ROM_BASE_ADDR: usize = 0x8000;

/// The memory map and size of a ROM.
#[derive(Debug, Clone, Copy, PartialEq, Eq, Structural)]
pub enum RomSize {
    ExLoRom,
    LoRom,
    HiRom,
    ExHiRom,
}

/// The CPU clock that a ROM runs at: SlowRom 2.68MHz, FastRom 3.58MHz.
#[derive(Debug, Clone, Copy, PartialEq, Eq, Structural)]
pub enum RomClkSpeed {
    SlowRom,
    FastRom,
}

/// Expansion chips that change the memory map.
#[derive(Debug, Clone, Copy, PartialEq, Eq, Structural)]
pub enum RomExpansions {
    NoExpansion,
    SA1,
    SDD1,
}

/// Where SRAM, ROM and the ROM's two mirrors sit in memory.
#[derive(Debug, Clone, Copy, PartialEq, Eq, Structural)]
pub struct RomMemoryMap {
    sram_start: usize,
    sram_len: usize,
    rom_start: usize,
    rom_len: usize,
    rom_mirror_1_start: usize,
    rom_mirror_1_len: usize,
    rom_mirror_2_start: usize,
    rom_mirror_2_len: usize,
}

impl RomMemoryMap {
    /// Every region starts at 0 and is empty.
    pub closed spec fn is_empty(&self) -> bool {
        &&& self.sram_start == 0
        &&& self.sram_len == 0
        &&& self.rom_start == 0
        &&& self.rom_len == 0
        &&& self.rom_mirror_1_start == 0
        &&& self.rom_mirror_1_len == 0
        &&& self.rom_mirror_2_start == 0
        &&& self.rom_mirror_2_len == 0
    }

    /// The empty map.
    pub closed spec fn empty() -> Self {
        RomMemoryMap {
            sram_start: 0,
            sram_len: 0,
            rom_start: 0,
            rom_len: 0,
            rom_mirror_1_start: 0,
            rom_mirror_1_len: 0,
            rom_mirror_2_start: 0,
            rom_mirror_2_len: 0,
        }
    }

    /// An empty map.
    pub fn new() -> (m: Self)
        ensures
            m.is_empty(),
            m == Self::empty(),
    {
        Self {
            sram_start: 0,
            sram_len: 0,
            rom_start: 0,
            rom_len: 0,
            rom_mirror_1_start: 0,
            rom_mirror_1_len: 0,
            rom_mirror_2_start: 0,
            rom_mirror_2_len: 0,
        }
    }
}

impl From<RomSize> for RomMemoryMap {
    /// No layout has its regions filled in yet: every size gives the empty map.
    fn from(size: RomSize) -> (m: Self) {
        RomMemoryMap::new()
    }
}

impl vstd::std_specs::convert::FromSpecImpl<RomSize> for RomMemoryMap {
    open spec fn obeys_from_spec() -> bool {
        true
    }

    open spec fn from_spec(v: RomSize) -> Self {
        RomMemoryMap::empty()
    }
}

/// The header bytes of a ROM, and its optional extension.
#[derive(Debug, Clone, Copy)]
pub struct HeaderData {
    header_data: [u8; HEADER_LENGTH_BYTES],
    opt_header_data: [u8; OPT_HEADER_EXTENSION_BYTES],
    opt_is_present: bool,
}

impl HeaderData {
    /// Every byte zero, no extension present.
    pub closed spec fn is_blank(&self) -> bool {
        &&& self.header_data@ == Seq::new(HEADER_LENGTH_BYTES as nat, |i: int| 0u8)
        &&& self.opt_header_data@ == Seq::new(OPT_HEADER_EXTENSION_BYTES as nat, |i: int| 0u8)
        &&& !self.opt_is_present
    }

    /// Empty header data.
    pub fn new() -> (h: Self)
        ensures
            h.is_blank(),
    {
        let h = Self { header_data: [0u8; 32], opt_header_data: [0u8; 16], opt_is_present: false };
        assert(h.header_data@ =~= Seq::new(HEADER_LENGTH_BYTES as nat, |i: int| 0u8));
        assert(h.opt_header_data@ =~= Seq::new(OPT_HEADER_EXTENSION_BYTES as nat, |i: int| 0u8));
        h
    }
}

} // verus!
