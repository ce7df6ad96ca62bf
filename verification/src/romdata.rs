//! SNES ROM images: header decoding, checksum verification, and placement of the
//! ROM in the address space.
//!
//! The header area lives at the end of the first bank of a ROM, laid out low to high as
//! [optional header (16 bytes), header (32 bytes), exception vectors (32 bytes)].
use vstd::prelude::*;

use crate::memory::{self, compose_address, word_of, write_bank, Memory, MEMORY_SIZE, address_error_text};
use crate::numfmt::{dec_raw, dec_string, hex_string, hex_text};

verus! {

/// Optional header breakdown (16 bytes).
pub const OPT_MAKER_CODE_LEN: usize = 2;
pub const OPT_GAME_CODE_LEN: usize = 4;
pub const OPT_FIXED_VAL_LEN: usize = 7;
pub const OPT_EXPANSION_RAM_LEN: usize = 1;
pub const OPT_SPECIAL_VERSION_LEN: usize = 1;
pub const OPT_SUB_CART_TYPE_LEN: usize = 1;
pub const OPT_HEADER_LEN_BYTES: usize = 16;

pub const OPT_MAKER_CODE_INDEX: usize = 0;
pub const OPT_GAME_CODE_INDEX: usize = OPT_MAKER_CODE_LEN;
pub const OPT_FIXED_VAL_INDEX: usize = OPT_GAME_CODE_INDEX + OPT_GAME_CODE_LEN;
pub const OPT_EXPANSION_RAM_INDEX: usize = OPT_FIXED_VAL_INDEX + OPT_FIXED_VAL_LEN;
pub const OPT_SPECIAL_VERSION_INDEX: usize = OPT_EXPANSION_RAM_INDEX + OPT_EXPANSION_RAM_LEN;
pub const OPT_SUB_CART_TYPE_INDEX: usize = OPT_SPECIAL_VERSION_INDEX + OPT_SUB_CART_TYPE_LEN;

/// Header breakdown (32 bytes).
pub const HDR_TITLE_LEN: usize = 21;
pub const HDR_MAP_MODE_LEN: usize = 1;
pub const HDR_CART_TYPE_LEN: usize = 1;
pub const HDR_ROM_SIZE_LEN: usize = 1;
pub const HDR_RAM_SIZE_LEN: usize = 1;
/// The destination code, which gives the region.
pub const HDR_DEST_CODE_LEN: usize = 1;
/// The fixed value, which tells whether the optional header is present.
pub const HDR_FIXED_VAL_LEN: usize = 1;
pub const HDR_MASK_ROM_VER_LEN: usize = 1;
pub const HDR_COMPLEMENT_CHECK_LEN: usize = 2;
pub const HDR_CHECKSUM_LEN: usize = 2;
pub const HDR_LEN_BYTES: usize = 32;

pub const HDR_TITLE_INDEX: usize = 0;
pub const HDR_MAP_MODE_INDEX: usize = HDR_TITLE_LEN;
pub const HDR_CART_TYPE_INDEX: usize = HDR_MAP_MODE_INDEX + HDR_MAP_MODE_LEN;
pub const HDR_ROM_SIZE_INDEX: usize = HDR_CART_TYPE_INDEX + HDR_CART_TYPE_LEN;
pub const HDR_RAM_SIZE_INDEX: usize = HDR_ROM_SIZE_INDEX + HDR_ROM_SIZE_LEN;
pub const HDR_DEST_CODE_INDEX: usize = HDR_RAM_SIZE_INDEX + HDR_RAM_SIZE_LEN;
pub const HDR_FIXED_VAL_INDEX: usize = HDR_DEST_CODE_INDEX + HDR_DEST_CODE_LEN;
pub const HDR_MASK_ROM_VER_INDEX: usize = HDR_FIXED_VAL_INDEX + HDR_FIXED_VAL_LEN;
pub const HDR_COMPLEMENT_CHECK_INDEX: usize = HDR_MASK_ROM_VER_INDEX + HDR_MASK_ROM_VER_LEN;
pub const HDR_CHECKSUM_INDEX: usize = HDR_COMPLEMENT_CHECK_INDEX + HDR_COMPLEMENT_CHECK_LEN;

/// A checksum plus its complement equals this value.
pub const HDR_TEST_VALUE: u16 = 0xFFFF;
/// Fixed value when the optional header is present.
pub const HDR_OPT_PRESENT: u8 = 0x33;
/// Fixed value when only the chipset subtype is present.
pub const HDR_SUBTYPE_PRESENT: u8 = 0x00;

/// Exception vector table (32 bytes).
pub const EV_LEN_BYTES: usize = 32;

/// LoRom: starts at bank $80 ($808000), mirrored to $008000.
pub const LO_ROM_BANK_ADDR: u8 = 0x80;
/// LoRom and ExLoRom banks are 32 KiB long.
pub const LO_ROM_BANK_SIZE_BYTES: usize = 32768;
pub const LO_ROM_EXC_VECTOR_ADDR: usize = LO_ROM_BANK_SIZE_BYTES - EV_LEN_BYTES;
pub const LO_ROM_HEADER_ADDR: usize = LO_ROM_EXC_VECTOR_ADDR - HDR_LEN_BYTES;
pub const LO_ROM_EXT_HEADER_ADDR: usize = LO_ROM_HEADER_ADDR - OPT_HEADER_LEN_BYTES;

/// HiRom: starts at bank $C0 ($C00000) through to $FFFFFF.
pub const HI_ROM_BANK_ADDR: u8 = 0xC0;
/// HiRom and ExHiRom banks are 64 KiB long.
pub const HI_ROM_BANK_SIZE_BYTES: usize = 65536;
pub const HI_ROM_EXC_VECTOR_ADDR: usize = HI_ROM_BANK_SIZE_BYTES - EV_LEN_BYTES;
pub const HI_ROM_HEADER_ADDR: usize = HI_ROM_EXC_VECTOR_ADDR - HDR_LEN_BYTES;
pub const HI_ROM_EXT_HEADER_ADDR: usize = HI_ROM_HEADER_ADDR - OPT_HEADER_LEN_BYTES;

/// ExHiRom: the header is at the end of the first bank after 4 MiB.
pub const EX_HI_ROM_EXC_VECTOR_ADDR: usize = 4194304 + HI_ROM_BANK_SIZE_BYTES - EV_LEN_BYTES;
pub const EX_HI_ROM_HEADER_ADDR: usize = EX_HI_ROM_EXC_VECTOR_ADDR - HDR_LEN_BYTES;
pub const EX_HI_ROM_EXT_HEADER_ADDR: usize = EX_HI_ROM_HEADER_ADDR - OPT_HEADER_LEN_BYTES;

/// Map mode bits.
pub const MAP_HIROM_MASK: u8 = 0b00000001;
pub const MAP_SA1_MASK: u8 = 0b00000010;
pub const MAP_EXHIROM_MASK: u8 = 0b00000100;
pub const MAP_FASTROM_MASK: u8 = 0b00010000;
pub const MAP_BASE_MASK: u8 = 0b00100000;

/// All LoRom banks, and mirrored banks of both Lo and HiRom, fall under $XX8000.
pub const ROM_BASE_ADDR: u16 = 0x8000;
pub const TOTAL_HDR_BYTES: usize = OPT_HEADER_LEN_BYTES + HDR_LEN_BYTES + EV_LEN_BYTES;

pub type Header = [u8; HDR_LEN_BYTES];

pub type OptionalHeader = [u8; OPT_HEADER_LEN_BYTES];

pub type ExceptionVectorTable = [u8; EV_LEN_BYTES];

/// The memory map of a ROM.
#[derive(Debug, Clone, Copy, PartialEq, Eq, Structural)]
pub enum RomSize {
    LoRom,
    HiRom,
    ExHiRom,
}

impl RomSize {
    /// Where the header of a ROM of this map lives within the ROM image.
    pub open spec fn spec_header_addr(self) -> usize {
        match self {
            RomSize::LoRom => LO_ROM_HEADER_ADDR,
            RomSize::HiRom => HI_ROM_HEADER_ADDR,
            RomSize::ExHiRom => EX_HI_ROM_HEADER_ADDR,
        }
    }

    /// Where the header of a ROM of this map lives within the ROM image.
    pub fn header_addr(self) -> (a: usize)
        ensures
            a == self.spec_header_addr(),
    {
        match self {
            RomSize::LoRom => LO_ROM_HEADER_ADDR,
            RomSize::HiRom => HI_ROM_HEADER_ADDR,
            RomSize::ExHiRom => EX_HI_ROM_HEADER_ADDR,
        }
    }

    /// Where the optional header lives within the ROM image.
    pub open spec fn spec_ext_header_addr(self) -> usize {
        match self {
            RomSize::LoRom => LO_ROM_EXT_HEADER_ADDR,
            RomSize::HiRom => HI_ROM_EXT_HEADER_ADDR,
            RomSize::ExHiRom => EX_HI_ROM_EXT_HEADER_ADDR,
        }
    }

    /// Where the exception vector table lives within the ROM image.
    pub open spec fn spec_exc_vector_addr(self) -> usize {
        match self {
            RomSize::LoRom => LO_ROM_EXC_VECTOR_ADDR,
            RomSize::HiRom => HI_ROM_EXC_VECTOR_ADDR,
            RomSize::ExHiRom => EX_HI_ROM_EXC_VECTOR_ADDR,
        }
    }
}

/// The length of one ROM bank.
#[derive(Debug, Clone, Copy, PartialEq, Eq, Structural)]
pub enum BankSize {
    Lo,
    Hi,
}

impl BankSize {
    /// The number of bytes in a bank of this kind.
    pub open spec fn spec_bytes(self) -> usize {
        match self {
            BankSize::Lo => LO_ROM_BANK_SIZE_BYTES,
            BankSize::Hi => HI_ROM_BANK_SIZE_BYTES,
        }
    }

    /// The number of bytes in a bank of this kind.
    pub fn bytes(self) -> (n: usize)
        ensures
            n == self.spec_bytes(),
    {
        match self {
            BankSize::Lo => LO_ROM_BANK_SIZE_BYTES,
            BankSize::Hi => HI_ROM_BANK_SIZE_BYTES,
        }
    }
}

/// The CPU clock speed of a ROM: SlowRom 2.68MHz, FastRom 3.58MHz.
#[derive(Debug, Clone, Copy, PartialEq, Eq, Structural)]
pub enum RomClkSpeed {
    SlowRom,
    FastRom,
}

/// Expansion chips that affect the memory map.
#[derive(Debug, Clone, Copy, PartialEq, Eq, Structural)]
pub enum RomExpansions {
    SA1,
    SDD1,
    NoExpansion,
}

/// The expansion that a coprocessor brings.
pub open spec fn spec_expansion(value: RomCoProcessor) -> RomExpansions {
    match value {
        RomCoProcessor::SA1 => RomExpansions::SA1,
        RomCoProcessor::SDD1 => RomExpansions::SDD1,
        _ => RomExpansions::NoExpansion,
    }
}

impl From<RomCoProcessor> for RomExpansions {
    fn from(value: RomCoProcessor) -> (r: Self) {
        match value {
            RomCoProcessor::SA1 => RomExpansions::SA1,
            RomCoProcessor::SDD1 => RomExpansions::SDD1,
            _ => RomExpansions::NoExpansion,
        }
    }
}

impl vstd::std_specs::convert::FromSpecImpl<RomCoProcessor> for RomExpansions {
    open spec fn obeys_from_spec() -> bool {
        true
    }

    open spec fn from_spec(v: RomCoProcessor) -> Self {
        spec_expansion(v)
    }
}

/// The cartridge type, from the low bits of the cartridge type byte.
#[derive(Debug, Clone, Copy, PartialEq, Eq, Structural)]
pub enum CartType {
    ROMOnly,
    ROMSram,
    ROMSramBattery,
    ROMCoCpu,
    ROMCoCpuSram,
    ROMCoCpuSramBattery,
    ROMCoCpuBattery,
    Invalid,
}

/// The cartridge type of a code.
pub open spec fn spec_cart_type(value: u8) -> CartType {
    if value == 0x00 {
        CartType::ROMOnly
    } else if value == 0x01 {
        CartType::ROMSram
    } else if value == 0x02 {
        CartType::ROMSramBattery
    } else if value == 0x03 {
        CartType::ROMCoCpu
    } else if value == 0x04 {
        CartType::ROMCoCpuSram
    } else if value == 0x05 {
        CartType::ROMCoCpuSramBattery
    } else if value == 0x06 {
        CartType::ROMCoCpuBattery
    } else {
        CartType::Invalid
    }
}

impl From<u8> for CartType {
    fn from(value: u8) -> (r: Self) {
        match value {
            0x00 => CartType::ROMOnly,
            0x01 => CartType::ROMSram,
            0x02 => CartType::ROMSramBattery,
            0x03 => CartType::ROMCoCpu,
            0x04 => CartType::ROMCoCpuSram,
            0x05 => CartType::ROMCoCpuSramBattery,
            0x06 => CartType::ROMCoCpuBattery,
            _ => CartType::Invalid,
        }
    }
}

impl vstd::std_specs::convert::FromSpecImpl<u8> for CartType {
    open spec fn obeys_from_spec() -> bool {
        true
    }

    open spec fn from_spec(v: u8) -> Self {
        spec_cart_type(v)
    }
}

/// The coprocessor, from the high bits of the cartridge type byte.
#[derive(Debug, Clone, Copy, PartialEq, Eq, Structural)]
pub enum RomCoProcessor {
    DSP,
    SuperFX,
    OBC1,
    SA1,
    SDD1,
    SRTC,
    /// Super Game Boy or Satellaview, out of scope.
    Other,
    Custom,
    NoCoProcessor,
}

/// The coprocessor of a code.
pub open spec fn spec_coprocessor(value: u8) -> RomCoProcessor {
    if value == 0x00 {
        RomCoProcessor::DSP
    } else if value == 0x01 {
        RomCoProcessor::SuperFX
    } else if value == 0x02 {
        RomCoProcessor::OBC1
    } else if value == 0x03 {
        RomCoProcessor::SA1
    } else if value == 0x04 {
        RomCoProcessor::SDD1
    } else if value == 0x05 {
        RomCoProcessor::SRTC
    } else if value == 0x0E {
        RomCoProcessor::Other
    } else if value == 0x0F {
        RomCoProcessor::Custom
    } else {
        RomCoProcessor::NoCoProcessor
    }
}

impl From<u8> for RomCoProcessor {
    fn from(value: u8) -> (r: Self) {
        match value {
            0x00 => RomCoProcessor::DSP,
            0x01 => RomCoProcessor::SuperFX,
            0x02 => RomCoProcessor::OBC1,
            0x03 => RomCoProcessor::SA1,
            0x04 => RomCoProcessor::SDD1,
            0x05 => RomCoProcessor::SRTC,
            0x0E => RomCoProcessor::Other,
            0x0F => RomCoProcessor::Custom,
            _ => RomCoProcessor::NoCoProcessor,
        }
    }
}

impl vstd::std_specs::convert::FromSpecImpl<u8> for RomCoProcessor {
    open spec fn obeys_from_spec() -> bool {
        true
    }

    open spec fn from_spec(v: u8) -> Self {
        spec_coprocessor(v)
    }
}

/// The code one past the last coprocessor code.
pub const COPROCESSOR_CODE_LIMIT: u8 = 0x10;

/// Custom coprocessors, named by the chipset subtype of the optional header.
#[derive(Debug, Clone, Copy, PartialEq, Eq, Structural)]
pub enum CustomCoProcessor {
    SPC7110,
    ST010_11,
    ST018,
    CX4,
    NoCustom,
}

/// The custom coprocessor of a code.
pub open spec fn spec_custom_coprocessor(value: u8) -> CustomCoProcessor {
    if value == 0x00 {
        CustomCoProcessor::SPC7110
    } else if value == 0x01 {
        CustomCoProcessor::ST010_11
    } else if value == 0x02 {
        CustomCoProcessor::ST018
    } else if value == 0x03 {
        CustomCoProcessor::CX4
    } else {
        CustomCoProcessor::NoCustom
    }
}

impl From<u8> for CustomCoProcessor {
    fn from(value: u8) -> (r: Self) {
        match value {
            0x00 => CustomCoProcessor::SPC7110,
            0x01 => CustomCoProcessor::ST010_11,
            0x02 => CustomCoProcessor::ST018,
            0x03 => CustomCoProcessor::CX4,
            _ => CustomCoProcessor::NoCustom,
        }
    }
}

impl vstd::std_specs::convert::FromSpecImpl<u8> for CustomCoProcessor {
    open spec fn obeys_from_spec() -> bool {
        true
    }

    open spec fn from_spec(v: u8) -> Self {
        spec_custom_coprocessor(v)
    }
}

/// The region of a ROM, from its destination code.
#[derive(Debug, Clone, Copy, PartialEq, Eq, Structural)]
pub enum RomRegion {
    Japan,
    USA,
    Europe,
    Sweden,
    Japan2,
    Denmark,
    France,
    Netherlands,
    Spain,
    Germany,
    Italy,
    China,
    Indonesia,
    SouthKorea,
    International,
    Canada,
    Brazil,
    Australia,
    /// Not a destination code; used internally only.
    Unknown,
}

/// The code one past the last destination code.
pub const REGION_CODE_LIMIT: u8 = 0x12;

/// The region of a destination code.
pub open spec fn spec_region(value: u8) -> RomRegion {
    if value == 0x00 {
        RomRegion::Japan
    } else if value == 0x01 {
        RomRegion::USA
    } else if value == 0x02 {
        RomRegion::Europe
    } else if value == 0x03 {
        RomRegion::Sweden
    } else if value == 0x04 {
        RomRegion::Japan2
    } else if value == 0x05 {
        RomRegion::Denmark
    } else if value == 0x06 {
        RomRegion::France
    } else if value == 0x07 {
        RomRegion::Netherlands
    } else if value == 0x08 {
        RomRegion::Spain
    } else if value == 0x09 {
        RomRegion::Germany
    } else if value == 0x0A {
        RomRegion::Italy
    } else if value == 0x0B {
        RomRegion::China
    } else if value == 0x0C {
        RomRegion::Indonesia
    } else if value == 0x0D {
        RomRegion::SouthKorea
    } else if value == 0x0E {
        RomRegion::International
    } else if value == 0x0F {
        RomRegion::Canada
    } else if value == 0x10 {
        RomRegion::Brazil
    } else if value == 0x11 {
        RomRegion::Australia
    } else {
        RomRegion::Unknown
    }
}

impl From<u8> for RomRegion {
    fn from(value: u8) -> (r: Self) {
        match value {
            0x00 => RomRegion::Japan,
            0x01 => RomRegion::USA,
            0x02 => RomRegion::Europe,
            0x03 => RomRegion::Sweden,
            0x04 => RomRegion::Japan2,
            0x05 => RomRegion::Denmark,
            0x06 => RomRegion::France,
            0x07 => RomRegion::Netherlands,
            0x08 => RomRegion::Spain,
            0x09 => RomRegion::Germany,
            0x0A => RomRegion::Italy,
            0x0B => RomRegion::China,
            0x0C => RomRegion::Indonesia,
            0x0D => RomRegion::SouthKorea,
            0x0E => RomRegion::International,
            0x0F => RomRegion::Canada,
            0x10 => RomRegion::Brazil,
            0x11 => RomRegion::Australia,
            _ => RomRegion::Unknown,
        }
    }
}

impl vstd::std_specs::convert::FromSpecImpl<u8> for RomRegion {
    open spec fn obeys_from_spec() -> bool {
        true
    }

    open spec fn from_spec(v: u8) -> Self {
        spec_region(v)
    }
}

/// The values decomposed out of the header.
#[derive(Debug)]
pub struct RomModeMapping {
    pub mem_map: RomSize,
    pub speed: RomClkSpeed,
    pub sram_size: u8,
    pub region: RomRegion,
    pub expansion: RomExpansions,
    pub coproc: RomCoProcessor,
    pub custom_coproc: CustomCoProcessor,
}

/// The mapping before anything is known: LoRom, SlowRom, no SRAM, nothing else.
pub open spec fn default_mode() -> RomModeMapping {
    RomModeMapping {
        mem_map: RomSize::LoRom,
        speed: RomClkSpeed::SlowRom,
        sram_size: 0,
        region: RomRegion::Unknown,
        expansion: RomExpansions::NoExpansion,
        coproc: RomCoProcessor::NoCoProcessor,
        custom_coproc: CustomCoProcessor::NoCustom,
    }
}

impl RomModeMapping {
    /// The mapping before anything is known.
    fn new() -> (m: Self)
        ensures
            m == default_mode(),
    {
        Self {
            mem_map: RomSize::LoRom,
            speed: RomClkSpeed::SlowRom,
            sram_size: 0,
            region: RomRegion::Unknown,
            expansion: RomExpansions::NoExpansion,
            coproc: RomCoProcessor::NoCoProcessor,
            custom_coproc: CustomCoProcessor::NoCustom,
        }
    }
}

/// The header data of a ROM, and what was decoded from it.
#[derive(Debug)]
pub struct RomData {
    pub header: Header,
    pub opt_header: OptionalHeader,
    pub exception_vectors: ExceptionVectorTable,
    pub opt_is_present: bool,
    pub mode: RomModeMapping,
}

impl RomData {
    /// Everything zero, nothing present, the default mapping.
    pub open spec fn is_blank(&self) -> bool {
        &&& self.header@ == Seq::new(HDR_LEN_BYTES as nat, |i: int| 0u8)
        &&& self.opt_header@ == Seq::new(OPT_HEADER_LEN_BYTES as nat, |i: int| 0u8)
        &&& self.exception_vectors@ == Seq::new(EV_LEN_BYTES as nat, |i: int| 0u8)
        &&& !self.opt_is_present
        &&& self.mode == default_mode()
    }

    /// Empty header data.
    pub fn new() -> (d: Self)
        ensures
            d.is_blank(),
    {
        let d = Self {
            header: [0u8; 32],
            opt_header: [0u8; 16],
            exception_vectors: [0u8; 32],
            opt_is_present: false,
            mode: RomModeMapping::new(),
        };
        assert(d.header@ =~= Seq::new(HDR_LEN_BYTES as nat, |i: int| 0u8));
        assert(d.opt_header@ =~= Seq::new(OPT_HEADER_LEN_BYTES as nat, |i: int| 0u8));
        assert(d.exception_vectors@ =~= Seq::new(EV_LEN_BYTES as nat, |i: int| 0u8));
        d
    }
}

/// An error met while reading a ROM, with its context.
#[derive(Debug, Clone)]
pub struct RomReadError {
    context: String,
}

impl View for RomReadError {
    type V = Seq<char>;

    closed spec fn view(&self) -> Seq<char> {
        self.context@
    }
}

/// The error of a result, by its text.
pub open spec fn err_text<T>(r: Result<T, RomReadError>) -> Result<T, Seq<char>> {
    match r {
        Ok(v) => Ok(v),
        Err(e) => Err(e@),
    }
}

impl RomReadError {
    /// An error with the given context.
    pub fn new(ctx: String) -> (e: Self)
        ensures
            e@ == ctx@,
    {
        Self { context: ctx }
    }

    /// An error with the given context.
    fn from_str(ctx: &str) -> (e: Self)
        ensures
            e@ == ctx@,
    {
        Self { context: String::from_str(ctx) }
    }

    /// The context of this error.
    pub fn context(&self) -> (s: &String)
        ensures
            s@ == self@,
    {
        &self.context
    }
}

/// The checksum stored in a header.
pub open spec fn stored_checksum(h: Seq<u8>) -> u16 {
    word_of(h[HDR_CHECKSUM_INDEX as int], h[HDR_CHECKSUM_INDEX + 1])
}

/// The checksum complement stored in a header.
pub open spec fn stored_complement(h: Seq<u8>) -> u16 {
    word_of(h[HDR_COMPLEMENT_CHECK_INDEX as int], h[HDR_COMPLEMENT_CHECK_INDEX + 1])
}

/// A header passes the check when it stores the computed checksum, and the checksum
/// plus its complement is 0xFFFF (16 bits, wrapping).
pub open spec fn checksum_valid(checksum: u16, h: Seq<u8>) -> bool {
    &&& checksum == stored_checksum(h)
    &&& (checksum + stored_complement(h)) % 0x10000 == HDR_TEST_VALUE
}

/// The memory map that a map mode byte names, if any: the ExHiRom bit wins over the
/// HiRom bit, which wins over the base (LoRom) bit.
pub open spec fn map_mode_size(m: u8) -> Option<RomSize> {
    if m & MAP_EXHIROM_MASK != 0 {
        Some(RomSize::ExHiRom)
    } else if m & MAP_HIROM_MASK != 0 {
        Some(RomSize::HiRom)
    } else if m & MAP_BASE_MASK != 0 {
        Some(RomSize::LoRom)
    } else {
        None
    }
}

/// The context of a failed checksum: both values, as `{:#06X}`.
pub open spec fn invalid_checksum_text(computed: u16, stored: u16) -> Seq<char> {
    "ROM Checksum was invalid.\nCalculated Checksum: 0x"@ + hex_text(computed as nat, 4, true)
        + "\nROM Checksum: 0x"@ + hex_text(stored as nat, 4, true)
}

/// The result of checking a header against a computed checksum.
pub open spec fn spec_test_checksum(checksum: u16, h: Seq<u8>) -> Result<RomSize, Seq<char>> {
    if checksum_valid(checksum, h) {
        match map_mode_size(h[HDR_MAP_MODE_INDEX as int]) {
            Some(size) => Ok(size),
            None => Err("ROM Checksum was valid, but mapping mode was unreadable"@),
        }
    } else {
        Err(invalid_checksum_text(checksum, stored_checksum(h)))
    }
}

/// Test whether the checksum of a ROM is valid for the header, and if so read the
/// memory map out of the map mode byte.
pub fn test_checksum(checksum: u16, header: &Header) -> (r: Result<RomSize, RomReadError>)
    ensures
        err_text(r) == spec_test_checksum(checksum, header@),
{
    let test_checksum: u16 = (header[HDR_CHECKSUM_INDEX] as u16) | ((header[HDR_CHECKSUM_INDEX + 1] as u16) << 8);
    let test_compare: u16 = (header[HDR_COMPLEMENT_CHECK_INDEX] as u16) | ((header[HDR_COMPLEMENT_CHECK_INDEX + 1] as u16) << 8);
    proof {
        lemma_word_bytes(header[HDR_CHECKSUM_INDEX as int], header[HDR_CHECKSUM_INDEX + 1]);
        lemma_word_bytes(header[HDR_COMPLEMENT_CHECK_INDEX as int], header[HDR_COMPLEMENT_CHECK_INDEX + 1]);
    }
    if checksum == test_checksum && checksum.wrapping_add(test_compare) == HDR_TEST_VALUE {
        // This rom looks good: read the memory map.
        let rom_map_mode: u8 = header[HDR_MAP_MODE_INDEX];
        if (rom_map_mode & MAP_EXHIROM_MASK) != 0 {
            Ok(RomSize::ExHiRom)
        } else if (rom_map_mode & MAP_HIROM_MASK) != 0 {
            Ok(RomSize::HiRom)
        } else if (rom_map_mode & MAP_BASE_MASK) != 0 {
            Ok(RomSize::LoRom)
        } else {
            Err(RomReadError::from_str("ROM Checksum was valid, but mapping mode was unreadable"))
        }
    } else {
        let mut ctx = String::from_str("ROM Checksum was invalid.\nCalculated Checksum: 0x");
        let computed = hex_string(checksum as usize, 4, true);
        ctx.append(computed.as_str());
        ctx.append("\nROM Checksum: 0x");
        let stored = hex_string(test_checksum as usize, 4, true);
        ctx.append(stored.as_str());
        Err(RomReadError::new(ctx))
    }
}

/// Two bytes, low first, make the little-endian word.
proof fn lemma_word_bytes(lo: u8, hi: u8)
    ensures
        (lo as u16) | ((hi as u16) << 8) == word_of(lo, hi),
{
    let w: u16 = (lo as u16) | ((hi as u16) << 8);
    assert(w == lo + 256 * hi) by (bit_vector)
        requires
            w == (lo as u16) | ((hi as u16) << 8),
    ;
}

/// Whether the fixed value of a header announces the optional header.
pub open spec fn opt_header_present(h: Seq<u8>) -> bool {
    h[HDR_FIXED_VAL_INDEX as int] == HDR_OPT_PRESENT
}

/// Copy `len` bytes of `src` from `start` into the front of `dst`.
fn copy_from_rom(dst: &mut [u8], rom: &Vec<u8>, start: usize, len: usize)
    requires
        old(dst)@.len() == len,
        start + len <= rom@.len(),
    ensures
        final(dst)@ == rom@.subrange(start as int, start + len),
{
    let rom_len = rom.len();
    let mut i: usize = 0;
    while i < len
        invariant
            i <= len,
            rom_len == rom@.len(),
            dst@.len() == len,
            start + len <= rom@.len(),
            forall|j: int| 0 <= j < i ==> #[trigger] dst@[j] == rom@[start + j],
        decreases len - i,
    {
        dst[i] = rom[start + i];
        i = i + 1;
    }
    assert(dst@ =~= rom@.subrange(start as int, start + len));
}

/// If the header announces an optional header, read it from the ROM.
pub fn fetch_opt_header(rom: &Vec<u8>, data: &mut RomData)
    requires
        opt_header_present(old(data).header@) ==> rom@.len() >= old(
            data,
        ).mode.mem_map.spec_ext_header_addr() + OPT_HEADER_LEN_BYTES,
    ensures
        final(data).header == old(data).header,
        final(data).exception_vectors == old(data).exception_vectors,
        final(data).mode == old(data).mode,
        opt_header_present(old(data).header@) ==> {
            &&& final(data).opt_is_present
            &&& final(data).opt_header@ == rom@.subrange(
                old(data).mode.mem_map.spec_ext_header_addr() as int,
                old(data).mode.mem_map.spec_ext_header_addr() + OPT_HEADER_LEN_BYTES,
            )
        },
        !opt_header_present(old(data).header@) ==> *final(data) == *old(data),
{
    let header_addr: usize = match data.mode.mem_map {
        RomSize::LoRom => LO_ROM_EXT_HEADER_ADDR,
        RomSize::HiRom => HI_ROM_EXT_HEADER_ADDR,
        RomSize::ExHiRom => EX_HI_ROM_EXT_HEADER_ADDR,
    };
    if data.header[HDR_FIXED_VAL_INDEX] == HDR_OPT_PRESENT {
        data.opt_is_present = true;
        copy_from_rom(&mut data.opt_header, rom, header_addr, OPT_HEADER_LEN_BYTES);
    }
}

/// Read the exception vector table from the ROM.
pub fn fetch_exception_vectors(rom: &Vec<u8>, data: &mut RomData)
    requires
        rom@.len() >= old(data).mode.mem_map.spec_exc_vector_addr() + EV_LEN_BYTES,
    ensures
        final(data).header == old(data).header,
        final(data).opt_header == old(data).opt_header,
        final(data).opt_is_present == old(data).opt_is_present,
        final(data).mode == old(data).mode,
        final(data).exception_vectors@ == rom@.subrange(
            old(data).mode.mem_map.spec_exc_vector_addr() as int,
            old(data).mode.mem_map.spec_exc_vector_addr() + EV_LEN_BYTES,
        ),
{
    let header_addr: usize = match data.mode.mem_map {
        RomSize::LoRom => LO_ROM_EXC_VECTOR_ADDR,
        RomSize::HiRom => HI_ROM_EXC_VECTOR_ADDR,
        RomSize::ExHiRom => EX_HI_ROM_EXC_VECTOR_ADDR,
    };
    copy_from_rom(&mut data.exception_vectors, rom, header_addr, EV_LEN_BYTES);
}

/// The low nibble of the cartridge type byte: which of ROM, SRAM and coprocessor the
/// cartridge has.
pub open spec fn cart_presence(h: Seq<u8>) -> u8 {
    h[HDR_CART_TYPE_INDEX as int] & 0x0F
}

/// The SRAM size byte for a RAM size code: 2 to the power of the code, kept to 8 bits.
pub open spec fn sram_size_of(ram: u8) -> u8 {
    if ram < 8 {
        (1u8 << ram) as u8
    } else {
        0
    }
}

/// The mapping after decoding a header (with its optional header `opt`) into `m`:
///     - speed from the FastRom bit of the map mode,
///     - region from the destination code, when it is one,
///     - by the low nibble of the cartridge type: 0 nothing more; 1 or 2 the SRAM size;
///       3 the coprocessor from the high nibble, and for a custom one with the optional
///       header or the subtype present, the custom coprocessor from the subtype byte,
///     - for a valid cartridge type (low nibble up to 3), the expansion that the
///       coprocessor brings.
pub open spec fn populated_mode(h: Seq<u8>, opt: Seq<u8>, m: RomModeMapping) -> RomModeMapping {
    let speed = if h[HDR_MAP_MODE_INDEX as int] & MAP_FASTROM_MASK != 0 {
        RomClkSpeed::FastRom
    } else {
        RomClkSpeed::SlowRom
    };
    let region = if h[HDR_DEST_CODE_INDEX as int] < REGION_CODE_LIMIT {
        spec_region(h[HDR_DEST_CODE_INDEX as int])
    } else {
        m.region
    };
    let m1 = RomModeMapping { speed, region, ..m };
    let low = cart_presence(h);
    if low == 0 {
        RomModeMapping { expansion: spec_expansion(m1.coproc), ..m1 }
    } else if low == 1 || low == 2 {
        RomModeMapping {
            sram_size: sram_size_of(h[HDR_RAM_SIZE_INDEX as int]),
            expansion: spec_expansion(m1.coproc),
            ..m1
        }
    } else if low == 3 {
        let cp = spec_coprocessor(((h[HDR_CART_TYPE_INDEX as int] & 0xF0) >> 4u8) as u8);
        let fixed = h[HDR_FIXED_VAL_INDEX as int];
        let custom = if cp == RomCoProcessor::Custom && (fixed == HDR_OPT_PRESENT || fixed
            == HDR_SUBTYPE_PRESENT) {
            spec_custom_coprocessor(opt[OPT_SUB_CART_TYPE_INDEX as int])
        } else {
            m.custom_coproc
        };
        RomModeMapping { coproc: cp, custom_coproc: custom, expansion: spec_expansion(cp), ..m1 }
    } else {
        m1
    }
}

/// The error that decoding the header ends with: the cartridge type byte in decimal
/// when it is invalid, "Unimplemented" otherwise.
pub open spec fn populate_error_text(h: Seq<u8>) -> Seq<char> {
    if cart_presence(h) <= 3 {
        "Unimplemented"@
    } else {
        "Cart type was invalid: "@ + dec_raw(h[HDR_CART_TYPE_INDEX as int] as nat)
    }
}

/// Whether decoding the header runs without a fault: with SRAM present, 2 to the power
/// of the RAM size code fits in a machine word.
pub open spec fn populate_ready(h: Seq<u8>) -> bool {
    (cart_presence(h) == 1 || cart_presence(h) == 2) ==> (h[HDR_RAM_SIZE_INDEX as int] as u32)
        < usize::BITS
}

/// Decode the header into the mapping. Decoding is not complete yet, so this always
/// ends with an error, after the mapping has been filled in.
pub fn populate_rom_mapping(data: &mut RomData) -> (r: Result<(), RomReadError>)
    requires
        populate_ready(old(data).header@),
    ensures
        final(data).header == old(data).header,
        final(data).opt_header == old(data).opt_header,
        final(data).exception_vectors == old(data).exception_vectors,
        final(data).opt_is_present == old(data).opt_is_present,
        final(data).mode == populated_mode(old(data).header@, old(data).opt_header@, old(data).mode),
        err_text(r) == Err::<(), Seq<char>>(populate_error_text(old(data).header@)),
{
    if data.header[HDR_MAP_MODE_INDEX] & MAP_FASTROM_MASK != 0 {
        data.mode.speed = RomClkSpeed::FastRom;
    } else {
        data.mode.speed = RomClkSpeed::SlowRom;
    }
    if data.header[HDR_DEST_CODE_INDEX] < REGION_CODE_LIMIT {
        data.mode.region = RomRegion::from(data.header[HDR_DEST_CODE_INDEX]);
    }
    // The low 4 bits give the presence or absence of SRAM and a coprocessor.
    let presence = data.header[HDR_CART_TYPE_INDEX] & 0x0F;
    if presence == 0x00 {
        // ROM only.
    } else if presence == 0x01 || presence == 0x02 {
        // ROM + SRAM, with or without a battery: 2^(RAM size code) bytes, kept to 8 bits.
        let ram = data.header[HDR_RAM_SIZE_INDEX];
        data.mode.sram_size = if ram < 8 {
            1u8 << ram
        } else {
            0
        };
    } else if presence == 0x03 {
        // The upper 4 bits give the coprocessor.
        let byte = data.header[HDR_CART_TYPE_INDEX];
        let cart_type = (byte & 0xF0) >> 4u8;
        assert(cart_type < 16) by (bit_vector)
            requires
                cart_type == (byte & 0xF0) >> 4u8,
        ;
        if cart_type < COPROCESSOR_CODE_LIMIT {
            data.mode.coproc = RomCoProcessor::from(cart_type);
        }
        // For a custom coprocessor, the subtype byte names it.
        if data.mode.coproc == RomCoProcessor::Custom {
            if data.header[HDR_FIXED_VAL_INDEX] == HDR_OPT_PRESENT || data.header[HDR_FIXED_VAL_INDEX]
                == HDR_SUBTYPE_PRESENT {
                data.mode.custom_coproc = CustomCoProcessor::from(
                    data.opt_header[OPT_SUB_CART_TYPE_INDEX],
                );
            }
        }
    } else {
        let mut ctx = String::from_str("Cart type was invalid: ");
        let code = dec_string(data.header[HDR_CART_TYPE_INDEX]);
        ctx.append(code.as_str());
        return Err(RomReadError::new(ctx));
    }
    data.mode.expansion = RomExpansions::from(data.mode.coproc);
    Err(RomReadError::from_str("Unimplemented"))
}

/// The sum of the bytes of `s`.
pub open spec fn byte_sum(s: Seq<u8>) -> int
    decreases s.len(),
{
    if s.len() == 0 {
        0
    } else {
        byte_sum(s.drop_last()) + s.last()
    }
}

/// The largest power of two that is at most `n` (0 for 0).
pub open spec fn floor_power_of_two(n: nat) -> nat
    decreases n,
{
    if n < 2 {
        n
    } else {
        2 * floor_power_of_two(n / 2)
    }
}

/// Whether `n` is a power of two.
pub open spec fn is_power_of_two(n: nat) -> bool {
    n >= 1 && floor_power_of_two(n) == n
}

/// The sum of `n` bytes taken in turn from the part of `rom` after `p`, starting over
/// at `p` whenever the end is reached.
pub open spec fn wrapped_sum(rom: Seq<u8>, p: int, n: nat) -> int
    decreases n,
{
    if n == 0 {
        0
    } else {
        wrapped_sum(rom, p, (n - 1) as nat) + rom[p + ((n - 1) as int) % (rom.len() - p)]
    }
}

/// The checksum of a ROM image, 16 bits, wrapping: the sum of all of its bytes when its
/// length is a power of two; otherwise the sum of its first `floor_power_of_two(len)`
/// bytes plus `wrap_count` bytes taken in turn, over and over, from the rest (the rest
/// counted as often as it takes to pad the image to the next power of two).
pub open spec fn rom_checksum(rom: Seq<u8>, wrap_count: nat) -> u16 {
    let p = floor_power_of_two(rom.len());
    if is_power_of_two(rom.len()) {
        (byte_sum(rom) % 0x10000) as u16
    } else {
        ((byte_sum(rom.take(p as int)) + wrapped_sum(rom, p as int, wrap_count)) % 0x10000) as u16
    }
}

/// The largest power of two at most `n` is at most `n`, and more than half of it.
proof fn lemma_floor_power_of_two(n: nat)
    ensures
        floor_power_of_two(n) <= n,
        n >= 1 ==> floor_power_of_two(n) >= 1 && n < 2 * floor_power_of_two(n),
    decreases n,
{
    if n >= 2 {
        lemma_floor_power_of_two(n / 2);
    }
}

/// The largest power of two that is at most `n`.
pub fn floor_pow2(n: usize) -> (p: usize)
    ensures
        p == floor_power_of_two(n as nat),
    decreases n,
{
    proof {
        lemma_floor_power_of_two(n as nat);
    }
    if n < 2 {
        n
    } else {
        2 * floor_pow2(n / 2)
    }
}

/// Adding a byte to a 16-bit running sum, wrapping.
proof fn lemma_wrapping_sum(total: int, b: u8)
    requires
        total >= 0,
    ensures
        ((total % 0x10000) as u16).wrapping_add(b as u16) == ((total + b) % 0x10000) as u16,
{
    let m = total % 0x10000;
    let q = total / 0x10000;
    vstd::arithmetic::div_mod::lemma_fundamental_div_mod(total, 0x10000);
    if m + b > 0xFFFF {
        vstd::arithmetic::div_mod::lemma_fundamental_div_mod_converse(total + b, 0x10000, q + 1, m + b - 0x10000);
    } else {
        vstd::arithmetic::div_mod::lemma_fundamental_div_mod_converse(total + b, 0x10000, q, m + b);
    }
}

/// The next position of a wrapped walk: one more, or back to the start at the end.
proof fn lemma_mod_step(i: int, r: int)
    requires
        i >= 0,
        r >= 1,
    ensures
        i % r + 1 == r ==> (i + 1) % r == 0,
        i % r + 1 != r ==> (i + 1) % r == i % r + 1,
        0 <= i % r < r,
{
    let q = i / r;
    let m = i % r;
    vstd::arithmetic::div_mod::lemma_fundamental_div_mod(i, r);
    vstd::arithmetic::div_mod::lemma_mod_pos_bound(i, r);
    if m + 1 == r {
        assert(i + 1 == (q + 1) * r + 0) by (nonlinear_arith)
            requires
                i == r * q + m,
                m + 1 == r,
        ;
        vstd::arithmetic::div_mod::lemma_fundamental_div_mod_converse(i + 1, r, q + 1, 0);
    } else {
        assert(i + 1 == q * r + (m + 1)) by (nonlinear_arith)
            requires
                i == r * q + m,
        ;
        vstd::arithmetic::div_mod::lemma_fundamental_div_mod_converse(i + 1, r, q, m + 1);
    }
}

/// The checksum of a ROM image; `wrap_count` is the number of bytes to add from the
/// part past the largest power of two, when the length is not one.
pub fn rom_checksum_of(rom: &Vec<u8>, wrap_count: usize) -> (c: u16)
    requires
        rom@.len() == 0 ==> wrap_count == 0,
    ensures
        c == rom_checksum(rom@, wrap_count as nat),
{
    let len = rom.len();
    let p = floor_pow2(len);
    proof {
        lemma_floor_power_of_two(len as nat);
    }
    let mut checksum: u16 = 0;
    if len >= 1 && p == len {
        let mut index: usize = 0;
        while index < len
            invariant
                len == rom@.len(),
                index <= len,
                checksum == (byte_sum(rom@.take(index as int)) % 0x10000) as u16,
            decreases len - index,
        {
            proof {
                assert(rom@.take(index + 1).drop_last() =~= rom@.take(index as int));
                lemma_byte_sum_nonneg(rom@.take(index as int));
                lemma_wrapping_sum(byte_sum(rom@.take(index as int)), rom@[index as int]);
            }
            checksum = checksum.wrapping_add(rom[index] as u16);
            index = index + 1;
        }
        assert(rom@.take(len as int) =~= rom@);
        checksum
    } else {
        let mut index: usize = 0;
        while index < p
            invariant
                len == rom@.len(),
                p <= len,
                index <= p,
                checksum == (byte_sum(rom@.take(index as int)) % 0x10000) as u16,
            decreases p - index,
        {
            proof {
                assert(rom@.take(index + 1).drop_last() =~= rom@.take(index as int));
                lemma_byte_sum_nonneg(rom@.take(index as int));
                lemma_wrapping_sum(byte_sum(rom@.take(index as int)), rom@[index as int]);
            }
            checksum = checksum.wrapping_add(rom[index] as u16);
            index = index + 1;
        }
        // Go round the rest, starting over at `p` whenever the end is reached.
        let ghost head = byte_sum(rom@.take(p as int));
        proof {
            lemma_byte_sum_nonneg(rom@.take(p as int));
            assert(rom@.take(index as int) == rom@.take(p as int));
        }
        let mut index: usize = p;
        let mut iteration: usize = 0;
        while iteration < wrap_count
            invariant
                len == rom@.len(),
                p < len || wrap_count == 0,
                p <= len,
                iteration <= wrap_count,
                head == byte_sum(rom@.take(p as int)),
                head >= 0,
                iteration == 0 ==> index == p,
                iteration > 0 ==> index == p + ((iteration - 1) as int) % (len - p) + 1,
                checksum == ((head + wrapped_sum(rom@, p as int, iteration as nat)) % 0x10000) as u16,
            decreases wrap_count - iteration,
        {
            let ghost r: int = len - p;
            proof {
                if iteration > 0 {
                    lemma_mod_step((iteration - 1) as int, r);
                } else {
                    assert(0int % r == 0);
                }
            }
            if index >= len {
                index = p;
            }
            assert(index == p + (iteration as int) % r);
            proof {
                lemma_mod_step(iteration as int, r);
                lemma_wrapped_sum_nonneg(rom@, p as int, iteration as nat);
                lemma_wrapping_sum(head + wrapped_sum(rom@, p as int, iteration as nat), rom@[index as int]);
            }
            checksum = checksum.wrapping_add(rom[index] as u16);
            index = index + 1;
            iteration = iteration + 1;
        }
        proof {
            lemma_byte_sum_nonneg(rom@.take(p as int));
        }
        checksum
    }
}

/// A sum of bytes is never negative.
proof fn lemma_byte_sum_nonneg(s: Seq<u8>)
    ensures
        byte_sum(s) >= 0,
    decreases s.len(),
{
    if s.len() > 0 {
        lemma_byte_sum_nonneg(s.drop_last());
    }
}

/// A wrapped sum of bytes is never negative.
proof fn lemma_wrapped_sum_nonneg(rom: Seq<u8>, p: int, n: nat)
    ensures
        wrapped_sum(rom, p, n) >= 0,
    decreases n,
{
    if n > 0 {
        lemma_wrapped_sum_nonneg(rom, p, (n - 1) as nat);
    }
}

/// The memory maps to look for a header of, in this order.
pub open spec fn header_candidates() -> Seq<RomSize> {
    seq![RomSize::ExHiRom, RomSize::HiRom, RomSize::LoRom]
}

/// The 32 bytes at the header position of `size`.
pub open spec fn header_slice(rom: Seq<u8>, size: RomSize) -> Seq<u8> {
    rom.subrange(size.spec_header_addr() as int, size.spec_header_addr() + HDR_LEN_BYTES)
}

/// Look for a header that passes the checksum test at the positions of `cands`, in order,
/// skipping positions at or past the end of the ROM. Gives the position's map and the
/// map that the header names; or else the error of the last header tested (`err` when
/// none was).
pub open spec fn search_headers(
    rom: Seq<u8>,
    checksum: u16,
    cands: Seq<RomSize>,
    err: Seq<char>,
) -> Result<(RomSize, RomSize), Seq<char>>
    decreases cands.len(),
{
    if cands.len() == 0 {
        Err(err)
    } else {
        let size = cands[0];
        if rom.len() > size.spec_header_addr() {
            match spec_test_checksum(checksum, header_slice(rom, size)) {
                Ok(m) => Ok((size, m)),
                Err(e) => search_headers(rom, checksum, cands.drop_first(), e),
            }
        } else {
            search_headers(rom, checksum, cands.drop_first(), err)
        }
    }
}

/// The header search of a ROM image, with its checksum.
pub open spec fn spec_fetch_header(rom: Seq<u8>, wrap_count: nat) -> Result<(RomSize, RomSize), Seq<char>> {
    search_headers(rom, rom_checksum(rom, wrap_count), header_candidates(), ""@)
}

/// Whether reading a header runs without a fault: a ROM that reaches past a header
/// position holds the whole header, and an empty ROM wraps no bytes.
pub open spec fn fetch_header_ready(rom: Seq<u8>, wrap_count: nat) -> bool {
    &&& forall|i: int|
        0 <= i < 3 ==> rom.len() > #[trigger] header_candidates()[i].spec_header_addr()
            ==> rom.len() >= header_candidates()[i].spec_header_addr() + HDR_LEN_BYTES
    &&& rom.len() == 0 ==> wrap_count == 0
}

/// Find the header of a ROM image: compute the checksum, then test the header at the
/// ExHiRom, HiRom and LoRom positions in turn. `wrap_count` is the number of bytes to
/// add from the part past the largest power of two, when the length is not one.
pub fn fetch_header(rom: &Vec<u8>, wrap_count: usize) -> (r: Result<RomData, RomReadError>)
    requires
        fetch_header_ready(rom@, wrap_count as nat),
    ensures
        r is Ok <==> spec_fetch_header(rom@, wrap_count as nat) is Ok,
        r matches Ok(d) ==> {
            let (at, map) = spec_fetch_header(rom@, wrap_count as nat)->Ok_0;
            &&& d.header@ == header_slice(rom@, at)
            &&& d.opt_header@ == Seq::new(OPT_HEADER_LEN_BYTES as nat, |i: int| 0u8)
            &&& d.exception_vectors@ == Seq::new(EV_LEN_BYTES as nat, |i: int| 0u8)
            &&& !d.opt_is_present
            &&& d.mode == (RomModeMapping { mem_map: map, ..default_mode() })
        },
        r matches Err(e) ==> spec_fetch_header(rom@, wrap_count as nat) == Err::<(RomSize, RomSize), Seq<char>>(e@),
{
    let checksum = rom_checksum_of(rom, wrap_count);
    let mut retval: RomReadError = RomReadError::from_str("");
    let rom_options: [RomSize; 3] = [RomSize::ExHiRom, RomSize::HiRom, RomSize::LoRom];
    let len = rom.len();
    let mut i: usize = 0;
    assert(rom_options@ =~= header_candidates());
    assert(header_candidates().skip(0) =~= header_candidates());
    while i < 3
        invariant
            len == rom@.len(),
            rom_options@ == header_candidates(),
            fetch_header_ready(rom@, wrap_count as nat),
            checksum == rom_checksum(rom@, wrap_count as nat),
            i <= 3,
            spec_fetch_header(rom@, wrap_count as nat) == search_headers(
                rom@,
                checksum,
                header_candidates().skip(i as int),
                retval@,
            ),
        decreases 3 - i,
    {
        let size = rom_options[i];
        let addr = size.header_addr();
        assert(header_candidates().skip(i as int).drop_first() =~= header_candidates().skip(i + 1));
        assert(header_candidates().skip(i as int)[0] == size);
        if len > addr {
            assert(len >= addr + HDR_LEN_BYTES) by {
                assert(header_candidates()[i as int] == size);
            }
            let mut test_header: Header = [0u8; 32];
            copy_from_rom(&mut test_header, rom, addr, HDR_LEN_BYTES);
            match test_checksum(checksum, &test_header) {
                Ok(tested_size) => {
                    let mut newmode = RomModeMapping::new();
                    newmode.mem_map = tested_size;
                    let d = RomData {
                        header: test_header,
                        opt_header: [0u8; 16],
                        exception_vectors: [0u8; 32],
                        opt_is_present: false,
                        mode: newmode,
                    };
                    assert(d.opt_header@ =~= Seq::new(OPT_HEADER_LEN_BYTES as nat, |i: int| 0u8));
                    assert(d.exception_vectors@ =~= Seq::new(EV_LEN_BYTES as nat, |i: int| 0u8));
                    return Ok(d);
                },
                Err(e) => {
                    retval = e;
                },
            }
        }
        i = i + 1;
    }
    Err(retval)
}

/// Memory after writing `count` banks of `bank_len` bytes in turn: bank `k` goes to
/// `base + k * stride` and comes from `rom` at `rom_start + k * bank_len` (as `put_bank`
/// writes it: the whole bank, if it fits).
pub open spec fn write_banks(
    m: Seq<u8>,
    base: int,
    stride: int,
    bank_len: int,
    rom: Seq<u8>,
    rom_start: int,
    count: nat,
) -> Seq<u8>
    decreases count,
{
    if count == 0 {
        m
    } else {
        let k = count - 1;
        let from = rom_start + k * bank_len;
        write_bank(
            write_banks(m, base, stride, bank_len, rom, rom_start, k as nat),
            base + k * stride,
            bank_len,
            rom.subrange(from, from + bank_len),
        )
    }
}

/// The result of the last of `count` bank writes starting at `base`, `stride` apart:
/// `prev` when there are none; otherwise `Ok` if the last bank fits, or the error for
/// its last address.
pub open spec fn last_bank_result(
    base: int,
    stride: int,
    bank_len: int,
    count: nat,
    prev: Result<(), Seq<char>>,
) -> Result<(), Seq<char>> {
    if count == 0 {
        prev
    } else {
        let end = base + (count - 1) * stride + bank_len - 1;
        if end < MEMORY_SIZE {
            Ok(())
        } else {
            Err(address_error_text(end as nat))
        }
    }
}

/// Write `count` banks of the ROM in turn, `stride` apart in memory (see
/// `write_banks`); the result is that of the last write, or `prev` when there is none.
fn write_bank_run(
    rom: &Vec<u8>,
    bank: BankSize,
    base: usize,
    stride: usize,
    rom_start: usize,
    count: usize,
    mem_ptr: &mut Memory,
    prev: Result<(), RomReadError>,
) -> (r: Result<(), RomReadError>)
    requires
        old(mem_ptr).wf(),
        rom_start + count * bank.spec_bytes() <= rom@.len(),
        base + count * stride + bank.spec_bytes() <= usize::MAX,
    ensures
        final(mem_ptr).wf(),
        final(mem_ptr)@ == write_banks(
            old(mem_ptr)@,
            base as int,
            stride as int,
            bank.spec_bytes() as int,
            rom@,
            rom_start as int,
            count as nat,
        ),
        err_text(r) == last_bank_result(
            base as int,
            stride as int,
            bank.spec_bytes() as int,
            count as nat,
            err_text(prev),
        ),
{
    let bs = bank.bytes();
    let rom_len = rom.len();
    let mut write_result = prev;
    let mut k: usize = 0;
    let mut offset: usize = 0;
    let mut dest: usize = base;
    while k < count
        invariant
            bs == bank.spec_bytes(),
            rom_len == rom@.len(),
            rom_start + count * bs <= rom@.len(),
            base + count * stride + bs <= usize::MAX,
            k <= count,
            offset == k * bs,
            dest == base + k * stride,
            mem_ptr.wf(),
            mem_ptr@ == write_banks(
                old(mem_ptr)@,
                base as int,
                stride as int,
                bs as int,
                rom@,
                rom_start as int,
                k as nat,
            ),
            err_text(write_result) == last_bank_result(
                base as int,
                stride as int,
                bs as int,
                k as nat,
                err_text(prev),
            ),
        decreases count - k,
    {
        assert(offset + bs <= count * bs) by (nonlinear_arith)
            requires
                offset == k * bs,
                k < count,
        ;
        assert(dest + stride <= base + count * stride) by (nonlinear_arith)
            requires
                dest == base + k * stride,
                k < count,
        ;
        let from = rom_start + offset;
        let slice = &rom.as_slice()[from..from + bs];
        match mem_ptr.put_bank(bank, dest, slice) {
            Ok(_t) => {
                write_result = Ok(());
            },
            Err(e) => {
                write_result = Err(RomReadError::new(e.message()));
            },
        }
        k = k + 1;
        offset = offset + bs;
        dest = dest + stride;
        assert(offset == k * bs) by (nonlinear_arith)
            requires
                offset == (k - 1) * bs + bs,
        ;
        assert(dest == base + k * stride) by (nonlinear_arith)
            requires
                dest == base + (k - 1) * stride + stride,
        ;
    }
    write_result
}

/// Write an ExHiRom to memory: not supported yet.
fn write_ex_hi_rom(rom: &Vec<u8>, mem_ptr: &mut Memory) -> (r: Result<(), RomReadError>)
    ensures
        *final(mem_ptr) == *old(mem_ptr),
        err_text(r) == Err::<(), Seq<char>>("Unimplemented for ExHiRom"@),
{
    Err(RomReadError::from_str("Unimplemented for ExHiRom"))
}

/// Write the mirror of an ExHiRom to memory: not supported yet.
fn write_ex_hi_rom_mirror(rom: &Vec<u8>, mem_ptr: &mut Memory) -> (r: Result<(), RomReadError>)
    ensures
        *final(mem_ptr) == *old(mem_ptr),
        err_text(r) == Err::<(), Seq<char>>("Unimplemented for ExHiRom"@),
{
    Err(RomReadError::from_str("Unimplemented for ExHiRom"))
}

/// The ROM is short enough that the machine can add twice its length and the whole
/// address space, four times over, without overflow.
pub open spec fn rom_len_ok(rom: Seq<u8>) -> bool {
    2 * rom.len() + 4 * MEMORY_SIZE <= usize::MAX
}

/// Memory after placing the ROM: HiRom banks of 64 KiB one after the other from
/// $C00000; LoRom banks of 32 KiB in the upper halves of the banks from $80, bank `b` at
/// $(80+b):8000. As many banks as fit whole in the ROM are written.
pub open spec fn spec_rom_placement(rom: Seq<u8>, mem_map: RomSize, m: Seq<u8>) -> Seq<u8> {
    match mem_map {
        RomSize::ExHiRom => m,
        RomSize::HiRom => write_banks(m, 0xC00000, 0x10000, 0x10000, rom, 0, rom.len() / 0x10000),
        RomSize::LoRom => write_banks(m, 0x808000, 0x10000, 0x8000, rom, 0, rom.len() / 0x8000),
    }
}

/// The result of placing the ROM (see `spec_rom_placement`).
pub open spec fn spec_rom_placement_result(rom: Seq<u8>, mem_map: RomSize) -> Result<(), Seq<char>> {
    match mem_map {
        RomSize::ExHiRom => Err("Unimplemented for ExHiRom"@),
        RomSize::HiRom => last_bank_result(0xC00000, 0x10000, 0x10000, rom.len() / 0x10000, Ok(())),
        RomSize::LoRom => last_bank_result(0x808000, 0x10000, 0x8000, rom.len() / 0x8000, Ok(())),
    }
}

/// Place the ROM into memory, bank by bank, by its memory map.
pub fn write_rom_to_memory(rom: &Vec<u8>, mem_map: RomSize, mem_ptr: &mut Memory) -> (r: Result<(), RomReadError>)
    requires
        old(mem_ptr).wf(),
        rom_len_ok(rom@),
    ensures
        final(mem_ptr).wf(),
        final(mem_ptr)@ == spec_rom_placement(rom@, mem_map, old(mem_ptr)@),
        err_text(r) == spec_rom_placement_result(rom@, mem_map),
{
    let len = rom.len();
    match mem_map {
        RomSize::ExHiRom => {
            // 0xC00000 - 0xFFFFFF, then 0x3E8000 - 0x7DFFFF: not supported yet.
            write_ex_hi_rom(rom, mem_ptr)
        },
        RomSize::HiRom => {
            let num_banks = len / HI_ROM_BANK_SIZE_BYTES;
            let base_addr = compose_address(HI_ROM_BANK_ADDR, 0);
            assert(num_banks * HI_ROM_BANK_SIZE_BYTES <= len);
            write_bank_run(rom, BankSize::Hi, base_addr, 0x10000, 0, num_banks, mem_ptr, Ok(()))
        },
        RomSize::LoRom => {
            // 0x808000 - 0xFFFFFF, one 32 KiB bank in the upper half of each bank.
            let num_banks = len / LO_ROM_BANK_SIZE_BYTES;
            let base_addr = compose_address(LO_ROM_BANK_ADDR, ROM_BASE_ADDR);
            assert(num_banks * LO_ROM_BANK_SIZE_BYTES <= len);
            assert(num_banks * 0x10000 <= 2 * len) by (nonlinear_arith)
                requires
                    num_banks * 0x8000 <= len,
            ;
            write_bank_run(rom, BankSize::Lo, base_addr, 0x10000, 0, num_banks, mem_ptr, Ok(()))
        },
    }
}

/// Memory after writing the mirror of the ROM, in LoRom banks of 32 KiB: for HiRom, the
/// first half of the ROM's 32 KiB banks one after the other from $000000 and the next
/// as many from $808000; for LoRom, all of them in the upper halves of the banks from
/// $00, bank `b` at $b:8000.
pub open spec fn spec_mirror_placement(rom: Seq<u8>, mem_map: RomSize, m: Seq<u8>) -> Seq<u8> {
    let n = rom.len() / 0x10000;
    match mem_map {
        RomSize::ExHiRom => m,
        RomSize::HiRom => write_banks(
            write_banks(m, 0, 0x8000, 0x8000, rom, 0, n),
            0x808000,
            0x8000,
            0x8000,
            rom,
            (n * 0x8000) as int,
            n,
        ),
        RomSize::LoRom => write_banks(m, 0x8000, 0x10000, 0x8000, rom, 0, rom.len() / 0x8000),
    }
}

/// The result of writing the mirror (see `spec_mirror_placement`).
pub open spec fn spec_mirror_result(rom: Seq<u8>, mem_map: RomSize) -> Result<(), Seq<char>> {
    let n = rom.len() / 0x10000;
    match mem_map {
        RomSize::ExHiRom => Err("Unimplemented for ExHiRom"@),
        RomSize::HiRom => last_bank_result(
            0x808000,
            0x8000,
            0x8000,
            n,
            last_bank_result(0, 0x8000, 0x8000, n, Ok(())),
        ),
        RomSize::LoRom => last_bank_result(0x8000, 0x10000, 0x8000, rom.len() / 0x8000, Ok(())),
    }
}

/// Write the mirror of the ROM to its place in memory.
pub fn write_rom_mirror(rom: &Vec<u8>, mem_map: RomSize, mem_ptr: &mut Memory) -> (r: Result<(), RomReadError>)
    requires
        old(mem_ptr).wf(),
        rom_len_ok(rom@),
    ensures
        final(mem_ptr).wf(),
        final(mem_ptr)@ == spec_mirror_placement(rom@, mem_map, old(mem_ptr)@),
        err_text(r) == spec_mirror_result(rom@, mem_map),
{
    let len = rom.len();
    match mem_map {
        RomSize::ExHiRom => write_ex_hi_rom_mirror(rom, mem_ptr),
        RomSize::HiRom => {
            // HiRom is split across 2 areas of half-size banks; the ROM stays contiguous.
            let n = len / HI_ROM_BANK_SIZE_BYTES;
            assert(n * 0x10000 <= len);
            let first = write_bank_run(rom, BankSize::Lo, memory::MEMORY_START, 0x8000, 0, n, mem_ptr, Ok(()));
            write_bank_run(
                rom,
                BankSize::Lo,
                compose_address(LO_ROM_BANK_ADDR, ROM_BASE_ADDR),
                0x8000,
                n * LO_ROM_BANK_SIZE_BYTES,
                n,
                mem_ptr,
                first,
            )
        },
        RomSize::LoRom => {
            // Mirrored to $008000 - $7DFFFF, one 32 KiB bank in the upper half of each bank.
            let n = len / LO_ROM_BANK_SIZE_BYTES;
            assert(n * 0x8000 <= len);
            assert(n * 0x10000 <= 2 * len) by (nonlinear_arith)
                requires
                    n * 0x8000 <= len,
            ;
            write_bank_run(rom, BankSize::Lo, compose_address(0, ROM_BASE_ADDR), 0x10000, 0, n, mem_ptr, Ok(()))
        },
    }
}

/// Where the ROM is written when the header checks are bypassed.
pub const BYPASS_LOAD_ADDR: usize = 0x808000;

/// Memory after copying `data` byte by byte to `start`; bytes that fall past the end of
/// the address space are dropped.
pub open spec fn write_bytes(m: Seq<u8>, start: int, data: Seq<u8>) -> Seq<u8> {
    Seq::new(
        m.len(),
        |i: int|
            if start <= i < start + data.len() && i < MEMORY_SIZE {
                data[i - start]
            } else {
                m[i]
            },
    )
}

/// Whether loading the ROM runs without a fault: the header search does, and the header
/// found leaves room in the ROM for the optional header and the exception vectors of the
/// map it names, and can be decoded.
pub open spec fn load_rom_ready(rom: Seq<u8>, wrap_count: nat) -> bool {
    &&& fetch_header_ready(rom, wrap_count)
    &&& spec_fetch_header(rom, wrap_count) matches Ok((at, map)) ==> {
        &&& rom.len() >= map.spec_ext_header_addr() + OPT_HEADER_LEN_BYTES
        &&& rom.len() >= map.spec_exc_vector_addr() + EV_LEN_BYTES
        &&& populate_ready(header_slice(rom, at))
    }
}

/// The error that loading a ROM with its checks ends with: that of the header search,
/// or else that of decoding the header found.
pub open spec fn spec_load_error(rom: Seq<u8>, wrap_count: nat) -> Seq<char> {
    match spec_fetch_header(rom, wrap_count) {
        Err(e) => e,
        Ok((at, map)) => populate_error_text(header_slice(rom, at)),
    }
}

/// The error for a ROM file in the SMC format.
pub open spec fn smc_error_text() -> Seq<char> {
    "SMC files contain additional data that is unneeded.\nThis tool does not support them yet. Please use an SFC file."@
}

/// Refuse a ROM file by its extension: SMC files ("smc") carry a copier header that
/// this tool does not skip.
pub fn check_rom_extension(extension: &str) -> (r: Result<(), RomReadError>)
    ensures
        r is Err <==> extension@ == "smc"@,
        r matches Err(e) ==> e@ == smc_error_text(),
{
    if word_is_smc(extension) {
        Err(RomReadError::from_str(
            "SMC files contain additional data that is unneeded.\nThis tool does not support them yet. Please use an SFC file.",
        ))
    } else {
        Ok(())
    }
}

/// Whether a text is "smc".
fn word_is_smc(s: &str) -> (b: bool)
    ensures
        b == (s@ == "smc"@),
{
    let a = String::from_str(s);
    let b = String::from_str("smc");
    a == b
}

/// Refuse an empty ROM image.
pub fn check_rom_size(len: usize) -> (r: Result<(), RomReadError>)
    ensures
        r is Err <==> len == 0,
        r matches Err(e) ==> e@ == "Rom was size 0"@,
{
    if len == 0 {
        Err(RomReadError::from_str("Rom was size 0"))
    } else {
        Ok(())
    }
}

/// `fetch_header_ready` spelled out for the three header positions.
proof fn lemma_fetch_header_ready_explicit(rom: Seq<u8>, wrap_count: nat)
    ensures
        fetch_header_ready(rom, wrap_count) <==> {
            &&& (rom.len() <= EX_HI_ROM_HEADER_ADDR || rom.len() >= EX_HI_ROM_HEADER_ADDR + HDR_LEN_BYTES)
            &&& (rom.len() <= HI_ROM_HEADER_ADDR || rom.len() >= HI_ROM_HEADER_ADDR + HDR_LEN_BYTES)
            &&& (rom.len() <= LO_ROM_HEADER_ADDR || rom.len() >= LO_ROM_HEADER_ADDR + HDR_LEN_BYTES)
            &&& (rom.len() != 0 || wrap_count == 0)
        },
{
    assert(header_candidates()[0] == RomSize::ExHiRom);
    assert(header_candidates()[1] == RomSize::HiRom);
    assert(header_candidates()[2] == RomSize::LoRom);
    assert(header_candidates()[0].spec_header_addr() == EX_HI_ROM_HEADER_ADDR);
    assert(header_candidates()[1].spec_header_addr() == HI_ROM_HEADER_ADDR);
    assert(header_candidates()[2].spec_header_addr() == LO_ROM_HEADER_ADDR);
    if (rom.len() <= EX_HI_ROM_HEADER_ADDR || rom.len() >= EX_HI_ROM_HEADER_ADDR + HDR_LEN_BYTES) && (
    rom.len() <= HI_ROM_HEADER_ADDR || rom.len() >= HI_ROM_HEADER_ADDR + HDR_LEN_BYTES) && (rom.len()
        <= LO_ROM_HEADER_ADDR || rom.len() >= LO_ROM_HEADER_ADDR + HDR_LEN_BYTES) {
        assert forall|i: int|
            0 <= i < 3 && rom.len() > #[trigger] header_candidates()[i].spec_header_addr() implies rom.len()
            >= header_candidates()[i].spec_header_addr() + HDR_LEN_BYTES by {
            assert(i == 0 || i == 1 || i == 2);
        }
    }
}

/// Whether `load_rom` can run its checks on this ROM without a fault (see
/// `load_rom_ready`).
pub fn load_rom_ready_check(rom: &Vec<u8>, wrap_count: usize) -> (b: bool)
    ensures
        b == load_rom_ready(rom@, wrap_count as nat),
{
    let len = rom.len();
    let ready = (len <= EX_HI_ROM_HEADER_ADDR || len >= EX_HI_ROM_HEADER_ADDR + HDR_LEN_BYTES)
        && (len <= HI_ROM_HEADER_ADDR || len >= HI_ROM_HEADER_ADDR + HDR_LEN_BYTES) && (len
        <= LO_ROM_HEADER_ADDR || len >= LO_ROM_HEADER_ADDR + HDR_LEN_BYTES) && (len != 0
        || wrap_count == 0);
    proof {
        lemma_fetch_header_ready_explicit(rom@, wrap_count as nat);
    }
    if !ready {
        return false;
    }
    match fetch_header(rom, wrap_count) {
        Err(_e) => true,
        Ok(d) => {
            let (ext, exc) = match d.mode.mem_map {
                RomSize::LoRom => (LO_ROM_EXT_HEADER_ADDR, LO_ROM_EXC_VECTOR_ADDR),
                RomSize::HiRom => (HI_ROM_EXT_HEADER_ADDR, HI_ROM_EXC_VECTOR_ADDR),
                RomSize::ExHiRom => (EX_HI_ROM_EXT_HEADER_ADDR, EX_HI_ROM_EXC_VECTOR_ADDR),
            };
            let presence = d.header[HDR_CART_TYPE_INDEX] & 0x0F;
            let ram = d.header[HDR_RAM_SIZE_INDEX];
            len >= ext + OPT_HEADER_LEN_BYTES && len >= exc + EV_LEN_BYTES && (!(presence == 1
                || presence == 2) || (ram as u32) < usize::BITS)
        },
    }
}

/// Load a ROM image. With `bypass_tests`, copy it byte by byte to $808000 and return
/// empty header data. Otherwise find and check its header, read the optional header and
/// the exception vectors, decode the header, then place the ROM and its mirror in
/// memory. Decoding is not complete yet, so that path ends with the decoding error and
/// leaves memory unchanged.
pub fn load_rom(
    rom: &Vec<u8>,
    wrap_count: usize,
    memory: &mut Memory,
    bypass_tests: bool,
) -> (r: Result<RomData, RomReadError>)
    requires
        old(memory).wf(),
        rom_len_ok(rom@),
        !bypass_tests ==> load_rom_ready(rom@, wrap_count as nat),
    ensures
        final(memory).wf(),
        bypass_tests ==> {
            &&& r matches Ok(d) && d.is_blank()
            &&& final(memory)@ == write_bytes(old(memory)@, BYPASS_LOAD_ADDR as int, rom@)
        },
        !bypass_tests ==> {
            &&& r matches Err(e) && e@ == spec_load_error(rom@, wrap_count as nat)
            &&& final(memory)@ == old(memory)@
        },
{
    let mut data = RomData::new();
    if bypass_tests {
        let len = rom.len();
        let mut offset: usize = 0;
        let ghost m0 = memory@;
        while offset < len
            invariant
                len == rom@.len(),
                rom_len_ok(rom@),
                offset <= len,
                memory.wf(),
                memory@ == write_bytes(m0, BYPASS_LOAD_ADDR as int, rom@.take(offset as int)),
            decreases len - offset,
        {
            let _ = memory.put_byte(BYPASS_LOAD_ADDR + offset, rom[offset]);
            offset = offset + 1;
            assert(memory@ =~= write_bytes(m0, BYPASS_LOAD_ADDR as int, rom@.take(offset as int)));
        }
        assert(rom@.take(len as int) =~= rom@);
        Ok(data)
    } else {
        // Find the header and tell the size of the ROM by it.
        data = match fetch_header(rom, wrap_count) {
            Ok(d) => d,
            Err(e) => {
                return Err(e);
            },
        };
        fetch_opt_header(rom, &mut data);
        fetch_exception_vectors(rom, &mut data);
        // Decode the header into more easily usable data.
        match populate_rom_mapping(&mut data) {
            Ok(_t) => {},
            Err(e) => {
                return Err(e);
            },
        }
        // Write the ROM into memory, and its mirror.
        match write_rom_to_memory(rom, data.mode.mem_map, memory) {
            Ok(_t) => {},
            Err(e) => {
                return Err(e);
            },
        }
        match write_rom_mirror(rom, data.mode.mem_map, memory) {
            Ok(_t) => {},
            Err(e) => {
                return Err(e);
            },
        }
        Ok(data)
    }
}

/// A header passes the checksum test with the checksum that it stores, when that
/// checksum and its complement add up to 0xFFFF: the test then gives the map that the
/// map mode byte names, or fails when it names none. With any other checksum the test
/// fails and reports both values.
pub proof fn lemma_checksum_accepts_stored(h: Seq<u8>, checksum: u16)
    requires
        h.len() == HDR_LEN_BYTES,
        (stored_checksum(h) + stored_complement(h)) % 0x10000 == HDR_TEST_VALUE,
    ensures
        checksum == stored_checksum(h) ==> spec_test_checksum(checksum, h) == match map_mode_size(
            h[HDR_MAP_MODE_INDEX as int],
        ) {
            Some(size) => Ok::<RomSize, Seq<char>>(size),
            None => Err("ROM Checksum was valid, but mapping mode was unreadable"@),
        },
        checksum != stored_checksum(h) ==> spec_test_checksum(checksum, h) == Err::<RomSize, Seq<char>>(
            invalid_checksum_text(checksum, stored_checksum(h)),
        ),
{
}

/// Bytes taken in turn from the part of a ROM past `p`: `k` whole rounds and then `j`
/// more bytes sum to `k` times that part plus its first `j` bytes.
#[verifier::spinoff_prover]
proof fn lemma_wrapped_sum_partial(rom: Seq<u8>, p: int, k: nat, j: nat)
    requires
        0 <= p < rom.len(),
        j <= rom.len() - p,
    ensures
        wrapped_sum(rom, p, (k * (rom.len() - p) + j) as nat) == k * byte_sum(rom.skip(p))
            + byte_sum(rom.skip(p).take(j as int)),
    decreases k, j,
{
    let m = rom.len() - p;
    let rest = rom.skip(p);
    let km = k * m;
    assert(km >= 0) by (nonlinear_arith)
        requires
            km == k * m,
            m >= 1,
    ;
    if j == 0 {
        assert(rest.take(0) =~= Seq::<u8>::empty());
        if k > 0 {
            lemma_wrapped_sum_partial(rom, p, (k - 1) as nat, m as nat);
            assert(rest.take(m) =~= rest);
            assert(((k - 1) * m + m) == km) by (nonlinear_arith)
                requires
                    km == k * m,
            ;
            assert(((k - 1) * byte_sum(rest) + byte_sum(rest)) == k * byte_sum(rest)) by (nonlinear_arith);
        } else {
            assert(km == 0) by (nonlinear_arith)
                requires
                    km == k * m,
                    k == 0,
            ;
        }
    } else {
        lemma_wrapped_sum_partial(rom, p, k, (j - 1) as nat);
        let n = km + j;
        assert(((km + (j - 1)) as nat) == ((n - 1) as nat));
        assert((km + (j - 1)) % m == j - 1) by (nonlinear_arith)
            requires
                0 <= j - 1 < m,
                km == k * m,
                k >= 0,
        ;
        assert(rest.take(j as int).drop_last() =~= rest.take(j - 1));
        assert(rest.take(j as int).last() == rom[p + j - 1]);
        assert(byte_sum(rest.take(j as int)) == byte_sum(rest.take(j - 1)) + rom[p + j - 1]);
        assert(wrapped_sum(rom, p, n as nat) == wrapped_sum(rom, p, (n - 1) as nat) + rom[p + ((n
            - 1) as int) % m]);
    }
}

/// The checksum of a ROM whose length is not a power of two, when the part past the
/// largest power of two is counted in `k` whole rounds: the sum of the first part plus
/// `k` times the sum of the rest, on 16 bits.
pub proof fn lemma_rom_checksum_rounds(rom: Seq<u8>, k: nat)
    requires
        rom.len() >= 1,
        !is_power_of_two(rom.len()),
    ensures
        ({
            let p = floor_power_of_two(rom.len());
            &&& p < rom.len()
            &&& rom_checksum(rom, (k * (rom.len() - p)) as nat) == ((byte_sum(rom.take(p as int))
                + k * byte_sum(rom.skip(p as int))) % 0x10000) as u16
        }),
{
    let p = floor_power_of_two(rom.len());
    lemma_floor_power_of_two(rom.len());
    assert(p < rom.len());
    lemma_wrapped_sum_partial(rom, p as int, k, 0);
    assert(rom.skip(p as int).take(0) =~= Seq::<u8>::empty());
}

/// Memory after writing banks: the bytes of bank `k` hold the ROM's bytes at the same
/// place in the ROM, when that bank fits in memory and the banks do not overlap.
proof fn lemma_write_banks_reads(
    m: Seq<u8>,
    base: int,
    stride: int,
    bank_len: int,
    rom: Seq<u8>,
    rom_start: int,
    count: nat,
    k: int,
    j: int,
)
    requires
        m.len() == MEMORY_SIZE,
        1 <= bank_len <= stride,
        base >= 0,
        rom_start >= 0,
        0 <= k < count,
        0 <= j < bank_len,
        rom_start + count * bank_len <= rom.len(),
        base + k * stride + bank_len - 1 < MEMORY_SIZE,
    ensures
        write_banks(m, base, stride, bank_len, rom, rom_start, count).len() == MEMORY_SIZE,
        write_banks(m, base, stride, bank_len, rom, rom_start, count)[base + k * stride + j]
            == rom[rom_start + k * bank_len + j],
    decreases count,
{
    let c1 = (count - 1) as nat;
    lemma_write_banks_len(m, base, stride, bank_len, rom, rom_start, c1);
    let from = rom_start + c1 * bank_len;
    assert(from + bank_len <= rom_start + count * bank_len) by (nonlinear_arith)
        requires
            from == rom_start + c1 * bank_len,
            count == c1 + 1,
    ;
    assert(c1 * bank_len >= 0) by (nonlinear_arith)
        requires
            bank_len >= 1,
    ;
    let data = rom.subrange(from, from + bank_len);
    if k == c1 {
        assert(data[j] == rom[from + j]);
    } else {
        assert(k * stride + stride <= c1 * stride) by (nonlinear_arith)
            requires
                0 <= k < c1,
                stride >= 1,
        ;
        assert(k * bank_len <= c1 * bank_len) by (nonlinear_arith)
            requires
                k < c1,
                bank_len >= 1,
        ;
        lemma_write_banks_reads(m, base, stride, bank_len, rom, rom_start, c1, k, j);
    }
}

/// Writing banks keeps the size of memory.
proof fn lemma_write_banks_len(
    m: Seq<u8>,
    base: int,
    stride: int,
    bank_len: int,
    rom: Seq<u8>,
    rom_start: int,
    count: nat,
)
    ensures
        write_banks(m, base, stride, bank_len, rom, rom_start, count).len() == m.len(),
    decreases count,
{
    if count > 0 {
        lemma_write_banks_len(m, base, stride, bank_len, rom, rom_start, (count - 1) as nat);
    }
}

/// Where placing a ROM puts it: byte `j` of the `k`-th whole 32 KiB bank of a LoRom is
/// found at $(80+k):8000 + j, and its mirror at $k:8000 + j; byte `j` of the `k`-th whole
/// 64 KiB bank of a HiRom is found at $(C0+k):0000 + j; each for every bank that fits in
/// memory.
pub proof fn lemma_rom_placement_reads(rom: Seq<u8>, m: Seq<u8>, k: int, j: int)
    requires
        m.len() == MEMORY_SIZE,
        0 <= k,
        0 <= j,
    ensures
        k < rom.len() / 0x8000 && j < 0x8000 && 0x808000 + k * 0x10000 + 0x7FFF < MEMORY_SIZE
            ==> spec_rom_placement(rom, RomSize::LoRom, m)[0x808000 + k * 0x10000 + j] == rom[k
            * 0x8000 + j],
        k < rom.len() / 0x10000 && j < 0x10000 && 0xC00000 + k * 0x10000 + 0xFFFF < MEMORY_SIZE
            ==> spec_rom_placement(rom, RomSize::HiRom, m)[0xC00000 + k * 0x10000 + j] == rom[k
            * 0x10000 + j],
        k < rom.len() / 0x8000 && j < 0x8000 && 0x8000 + k * 0x10000 + 0x7FFF < MEMORY_SIZE
            ==> spec_mirror_placement(rom, RomSize::LoRom, m)[0x8000 + k * 0x10000 + j] == rom[k
            * 0x8000 + j],
{
    let n_lo = rom.len() / 0x8000;
    let n_hi = rom.len() / 0x10000;
    assert(n_lo * 0x8000 <= rom.len()) by (nonlinear_arith)
        requires
            n_lo == rom.len() / 0x8000,
    ;
    assert(n_hi * 0x10000 <= rom.len()) by (nonlinear_arith)
        requires
            n_hi == rom.len() / 0x10000,
    ;
    if k < n_lo && j < 0x8000 && 0x808000 + k * 0x10000 + 0x7FFF < MEMORY_SIZE {
        lemma_write_banks_reads(m, 0x808000, 0x10000, 0x8000, rom, 0, n_lo as nat, k, j);
    }
    if k < n_hi && j < 0x10000 && 0xC00000 + k * 0x10000 + 0xFFFF < MEMORY_SIZE {
        lemma_write_banks_reads(m, 0xC00000, 0x10000, 0x10000, rom, 0, n_hi as nat, k, j);
    }
    if k < n_lo && j < 0x8000 && 0x8000 + k * 0x10000 + 0x7FFF < MEMORY_SIZE {
        lemma_write_banks_reads(m, 0x8000, 0x10000, 0x8000, rom, 0, n_lo as nat, k, j);
    }
}

/// Writing banks leaves every byte below the first bank as it was.
proof fn lemma_write_banks_below(
    m: Seq<u8>,
    base: int,
    stride: int,
    bank_len: int,
    rom: Seq<u8>,
    rom_start: int,
    count: nat,
    i: int,
)
    requires
        stride >= 0,
        0 <= i < base,
        i < m.len(),
    ensures
        write_banks(m, base, stride, bank_len, rom, rom_start, count)[i] == m[i],
    decreases count,
{
    if count > 0 {
        let c1 = (count - 1) as nat;
        lemma_write_banks_len(m, base, stride, bank_len, rom, rom_start, c1);
        lemma_write_banks_below(m, base, stride, bank_len, rom, rom_start, c1, i);
        assert(c1 * stride >= 0) by (nonlinear_arith)
            requires
                stride >= 0,
        ;
    }
}

/// The mirror of a HiRom keeps the ROM contiguous across its two areas: with `n` whole
/// 64 KiB banks, 32 KiB piece `k` of the ROM (for `k < n`) is at $00:0000 + k * 0x8000,
/// and piece `n + k` at $80:8000 + k * 0x8000, wherever the piece fits in its area.
pub proof fn lemma_hirom_mirror_reads(rom: Seq<u8>, m: Seq<u8>, k: int, j: int)
    requires
        m.len() == MEMORY_SIZE,
        0 <= k < rom.len() / 0x10000,
        0 <= j < 0x8000,
    ensures
        k * 0x8000 + 0x8000 <= 0x808000 ==> spec_mirror_placement(rom, RomSize::HiRom, m)[k
            * 0x8000 + j] == rom[k * 0x8000 + j],
        0x808000 + k * 0x8000 + 0x8000 <= MEMORY_SIZE ==> spec_mirror_placement(
            rom,
            RomSize::HiRom,
            m,
        )[0x808000 + k * 0x8000 + j] == rom[(rom.len() / 0x10000 + k) * 0x8000 + j],
{
    let n = rom.len() / 0x10000;
    assert(n * 0x10000 <= rom.len()) by (nonlinear_arith)
        requires
            n == rom.len() / 0x10000,
    ;
    let first = write_banks(m, 0, 0x8000, 0x8000, rom, 0, n);
    lemma_write_banks_len(m, 0, 0x8000, 0x8000, rom, 0, n);
    if k * 0x8000 + 0x8000 <= 0x808000 {
        lemma_write_banks_reads(m, 0, 0x8000, 0x8000, rom, 0, n, k, j);
        lemma_write_banks_below(first, 0x808000, 0x8000, 0x8000, rom, (n * 0x8000) as int, n, k * 0x8000 + j);
    }
    if 0x808000 + k * 0x8000 + 0x8000 <= MEMORY_SIZE {
        lemma_write_banks_reads(first, 0x808000, 0x8000, 0x8000, rom, (n * 0x8000) as int, n, k, j);
        assert((n * 0x8000) as int + k * 0x8000 + j == (n + k) * 0x8000 + j) by (nonlinear_arith);
    }
}

/// Decoding a header gives FastRom exactly when bit 4 (value 0x10) of the map mode byte is
/// set, and SlowRom otherwise, whatever the other bytes hold.
pub proof fn lemma_populated_speed(h: Seq<u8>, opt: Seq<u8>, m: RomModeMapping)
    requires
        h.len() == HDR_LEN_BYTES,
    ensures
        populated_mode(h, opt, m).speed == if (h[HDR_MAP_MODE_INDEX as int] / 0x10) % 2 == 1 {
            RomClkSpeed::FastRom
        } else {
            RomClkSpeed::SlowRom
        },
{
    let b = h[HDR_MAP_MODE_INDEX as int];
    assert((b & 0x10 != 0) == ((b / 0x10) % 2 == 1)) by (bit_vector);
}

/// What decoding a header does by the low nibble `p` of the cartridge type byte: for a
/// cartridge with SRAM (`p` is 1 or 2) the SRAM size is 2 to the power of the RAM size
/// code (0 for a code of 8 or more, which does not fit in a byte); for ROM only (`p` is
/// 0) the SRAM size and the coprocessors are kept; for a coprocessor cartridge (`p` is
/// 3) the coprocessor is the one the high nibble names and the SRAM size is kept; above
/// 3 the SRAM size, the coprocessors and the expansion are kept. The mapping kind is
/// always kept.
pub proof fn lemma_populated_cart_type(h: Seq<u8>, opt: Seq<u8>, m: RomModeMapping)
    requires
        h.len() == HDR_LEN_BYTES,
    ensures
        ({
            let d = populated_mode(h, opt, m);
            let p = h[HDR_CART_TYPE_INDEX as int] % 16;
            let ram = h[HDR_RAM_SIZE_INDEX as int];
            &&& d.mem_map == m.mem_map
            &&& (p == 1 || p == 2) && ram < 8 ==> d.sram_size as nat == vstd::arithmetic::power2::pow2(
                ram as nat,
            )
            &&& (p == 1 || p == 2) && ram >= 8 ==> d.sram_size == 0
            &&& (p == 1 || p == 2) ==> d.coproc == m.coproc && d.custom_coproc == m.custom_coproc
            &&& p == 0 ==> d.sram_size == m.sram_size && d.coproc == m.coproc && d.custom_coproc
                == m.custom_coproc
            &&& p == 3 ==> d.sram_size == m.sram_size && d.coproc == spec_coprocessor(
                h[HDR_CART_TYPE_INDEX as int] / 16,
            )
            &&& p > 3 ==> d.sram_size == m.sram_size && d.coproc == m.coproc && d.custom_coproc
                == m.custom_coproc && d.expansion == m.expansion
        }),
{
    let c = h[HDR_CART_TYPE_INDEX as int];
    assert(c & 0x0F == c % 16) by (bit_vector);
    assert((c & 0xF0) >> 4u8 == c / 16) by (bit_vector);
    let ram = h[HDR_RAM_SIZE_INDEX as int];
    vstd::arithmetic::power2::lemma2_to64();
    if ram < 8 {
        assert(ram == 0 ==> (1u8 << ram) == 1) by (bit_vector);
        assert(ram == 1 ==> (1u8 << ram) == 2) by (bit_vector);
        assert(ram == 2 ==> (1u8 << ram) == 4) by (bit_vector);
        assert(ram == 3 ==> (1u8 << ram) == 8) by (bit_vector);
        assert(ram == 4 ==> (1u8 << ram) == 16) by (bit_vector);
        assert(ram == 5 ==> (1u8 << ram) == 32) by (bit_vector);
        assert(ram == 6 ==> (1u8 << ram) == 64) by (bit_vector);
        assert(ram == 7 ==> (1u8 << ram) == 128) by (bit_vector);
    }
}

/// The memory map that a map mode byte names, by its bits: ExHiRom when bit 2 (0x04) is
/// set, else HiRom when bit 0 (0x01) is, else LoRom when bit 5 (0x20) is, else none.
/// So 0x20 and 0x30 name LoRom, 0x21 and 0x31 HiRom, 0x25 and 0x35 ExHiRom.
pub proof fn lemma_map_mode_bits(m: u8)
    ensures
        map_mode_size(m) == if (m / 4) % 2 == 1 {
            Some(RomSize::ExHiRom)
        } else if m % 2 == 1 {
            Some(RomSize::HiRom)
        } else if (m / 32) % 2 == 1 {
            Some(RomSize::LoRom)
        } else {
            None
        },
{
    assert((m & 0x04 != 0) == ((m / 4) % 2 == 1)) by (bit_vector);
    assert((m & 0x01 != 0) == (m % 2 == 1)) by (bit_vector);
    assert((m & 0x20 != 0) == ((m / 32) % 2 == 1)) by (bit_vector);
}

} // verus!
