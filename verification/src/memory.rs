//! The 24-bit SNES address space: 256 banks of 64 KiB each.
use vstd::prelude::*;

use crate::numfmt::{hex_string, hex_text};
use crate::romdata::BankSize;

verus! {

/// Number of addressable bytes (0x000000 - 0xFFFFFF).
pub const MEMORY_SIZE: usize = 0x1000000;

/// First valid address.
pub const MEMORY_START: usize = 0x000000;

/// Last valid address.
pub const MEMORY_END: usize = 0xFFFFFF;

/// Bit index that a bank number is shifted by to form an absolute address.
pub const MEMORY_BANK_INDEX: u8 = 16;

/// Error for an address outside of the address space.
#[derive(Debug, Clone, Copy)]
pub struct InvalidAddressError {
    addr: usize,
}

impl View for InvalidAddressError {
    type V = usize;

    /// The offending address.
    closed spec fn view(&self) -> usize {
        self.addr
    }
}

impl InvalidAddressError {
    /// An error for the address `addr`.
    pub fn new(addr: usize) -> (e: Self)
        ensures
            e@ == addr,
    {
        Self { addr }
    }

    /// The address that was out of range.
    pub fn addr(&self) -> (a: usize)
        ensures
            a == self@,
    {
        self.addr
    }

    /// The text of this error: the address in lower-case hexadecimal, as `{:#08x}`.
    pub fn message(&self) -> (s: String)
        ensures
            s@ == address_error_text(self@ as nat),
    {
        let mut s = String::from_str("Address index 0x");
        let digits = hex_string(self.addr, 6, false);
        s.append(digits.as_str());
        s.append(" out of bounds");
        s
    }
}

/// The text of an out-of-range address error.
pub open spec fn address_error_text(addr: nat) -> Seq<char> {
    "Address index 0x"@ + hex_text(addr, 6, false) + " out of bounds"@
}

/// The value of the byte at `address`, if the address is in range.
pub open spec fn read_byte(m: Seq<u8>, address: int) -> Option<u8> {
    if 0 <= address < MEMORY_SIZE {
        Some(m[address])
    } else {
        None
    }
}

/// Memory after writing `byte` at `address`; out-of-range writes change nothing.
pub open spec fn write_byte(m: Seq<u8>, address: int, byte: u8) -> Seq<u8> {
    if 0 <= address < MEMORY_SIZE {
        m.update(address, byte)
    } else {
        m
    }
}

/// The little-endian word made of the bytes `lo` and `hi`.
pub open spec fn word_of(lo: u8, hi: u8) -> u16 {
    (lo + 256 * hi) as u16
}

/// The little-endian word stored at `address`, if both of its bytes are in range.
pub open spec fn read_word(m: Seq<u8>, address: int) -> Option<u16> {
    if 0 <= address && address + 1 < MEMORY_SIZE {
        Some(word_of(m[address], m[address + 1]))
    } else {
        None
    }
}

/// Memory after storing `word` little-endian at `address`, if both bytes are in range.
pub open spec fn write_word(m: Seq<u8>, address: int, word: u16) -> Seq<u8> {
    if 0 <= address && address + 1 < MEMORY_SIZE {
        m.update(address, (word % 256) as u8).update(address + 1, (word / 256) as u8)
    } else {
        m
    }
}

/// Memory after copying the `bank_len` bytes of a bank from `data` to `address`, if the
/// last address of the bank is in range.
pub open spec fn write_bank(m: Seq<u8>, address: int, bank_len: int, data: Seq<u8>) -> Seq<u8> {
    if address + bank_len - 1 < MEMORY_SIZE {
        Seq::new(
            m.len(),
            |i: int|
                if address <= i < address + bank_len {
                    data[i - address]
                } else {
                    m[i]
                },
        )
    } else {
        m
    }
}

/// Where a memory dump starts when no address is given: the first LoRom bank.
pub const DUMP_DEFAULT_ADDR: usize = 0x808000;

/// The column headings of a memory dump: "00 " to "0F " for the first `n` columns.
pub open spec fn dump_heading(n: nat) -> Seq<char>
    decreases n,
{
    if n == 0 {
        Seq::empty()
    } else {
        dump_heading((n - 1) as nat) + hex_text((n - 1) as nat, 2, true) + " "@
    }
}

/// The first `n` bytes from `a`, each in two lower-case hex digits and a space.
pub open spec fn dump_cells(m: Seq<u8>, a: int, n: nat) -> Seq<char>
    decreases n,
{
    if n == 0 {
        Seq::empty()
    } else {
        dump_cells(m, a, (n - 1) as nat) + hex_text(m[a + n - 1] as nat, 2, false) + " "@
    }
}

/// The first `n` rows of a dump from `start`: the row number, a bar, then 16 bytes.
pub open spec fn dump_rows(m: Seq<u8>, start: int, n: nat) -> Seq<char>
    decreases n,
{
    if n == 0 {
        Seq::empty()
    } else {
        dump_rows(m, start, (n - 1) as nat) + hex_text((n - 1) as nat, 2, false) + "|"@
            + dump_cells(m, start + 16 * (n - 1), 16) + "\n"@
    }
}

/// A dump of the 128 bytes from `start`: a heading, a rule, and 8 rows of 16 bytes.
pub open spec fn dump_text(m: Seq<u8>, start: int) -> Seq<char> {
    "\n0x|"@ + dump_heading(16) + "\n==================================================\n"@
        + dump_rows(m, start, 8)
}

/// The whole address space, as bytes.
pub struct Memory {
    memory: Vec<u8>,
}

impl View for Memory {
    type V = Seq<u8>;

    closed spec fn view(&self) -> Seq<u8> {
        self.memory@
    }
}

impl Memory {
    /// Well-formed: the address space holds exactly `MEMORY_SIZE` bytes.
    pub open spec fn wf(&self) -> bool {
        self@.len() == MEMORY_SIZE
    }

    /// A new address space with every byte set to 0.
    pub fn new() -> (m: Self)
        ensures
            m.wf(),
            m@ == Seq::new(MEMORY_SIZE as nat, |i: int| 0u8),
    {
        let memory: Vec<u8> = vec![0u8; MEMORY_SIZE];
        assert(memory@ =~= Seq::new(MEMORY_SIZE as nat, |i: int| 0u8));
        Memory { memory }
    }

    /// The number of bytes in the address space.
    pub fn size(&self) -> (n: usize)
        requires
            self.wf(),
        ensures
            n == MEMORY_SIZE,
            n == self@.len(),
    {
        self.memory.len()
    }

    /// A dump of the 128 bytes from `address` (the first LoRom bank if `None`), as text
    /// (see `dump_text`).
    pub fn bytes_text(&self, address: Option<usize>) -> (s: String)
        requires
            self.wf(),
            address matches Some(a) ==> a + 128 <= MEMORY_SIZE,
        ensures
            s@ == dump_text(
                self@,
                match address {
                    Some(a) => a as int,
                    None => DUMP_DEFAULT_ADDR as int,
                },
            ),
    {
        let start_addr = match address {
            Some(start) => start,
            None => DUMP_DEFAULT_ADDR,
        };
        let mut s = String::from_str("\n0x|");
        let ghost prefix = s@;
        let mut i: usize = 0;
        while i < 16
            invariant
                i <= 16,
                s@ == prefix + dump_heading(i as nat),
            decreases 16 - i,
        {
            let t = hex_string(i, 2, true);
            s.append(t.as_str());
            s.append(" ");
            i = i + 1;
        }
        s.append("\n==================================================\n");
        let ghost head = s@;
        let mut i: usize = 0;
        while i < 8
            invariant
                self.wf(),
                start_addr + 128 <= MEMORY_SIZE,
                i <= 8,
                s@ == head + dump_rows(self@, start_addr as int, i as nat),
            decreases 8 - i,
        {
            let t = hex_string(i, 2, false);
            s.append(t.as_str());
            s.append("|");
            let ghost row_start = s@;
            let mut j: usize = 0;
            while j < 16
                invariant
                    self.wf(),
                    start_addr + 128 <= MEMORY_SIZE,
                    i < 8,
                    j <= 16,
                    s@ == row_start + dump_cells(self@, start_addr + 16 * i, j as nat),
                decreases 16 - j,
            {
                let b = self.memory[start_addr + (16 * i) + j];
                let t = hex_string(b as usize, 2, false);
                s.append(t.as_str());
                s.append(" ");
                j = j + 1;
            }
            s.append("\n");
            i = i + 1;
        }
        s
    }

    /// Read one byte at an absolute address.
    pub fn get_byte(&self, address: usize) -> (r: Result<u8, InvalidAddressError>)
        requires
            self.wf(),
        ensures
            r is Ok <==> address < MEMORY_SIZE,
            r matches Ok(v) ==> read_byte(self@, address as int) == Some(v),
            r matches Err(e) ==> e@ == address,
    {
        match address_is_valid(address) {
            Ok(_t) => Ok(self.memory[address]),
            Err(e) => Err(e),
        }
    }

    /// Write one byte at an absolute address.
    pub fn put_byte(&mut self, address: usize, byte: u8) -> (r: Result<(), InvalidAddressError>)
        requires
            old(self).wf(),
        ensures
            final(self).wf(),
            r is Ok <==> address < MEMORY_SIZE,
            final(self)@ == write_byte(old(self)@, address as int, byte),
            r matches Err(e) ==> e@ == address,
    {
        match address_is_valid(address) {
            Ok(_t) => {
                self.memory.set(address, byte);
                Ok(())
            },
            Err(e) => Err(e),
        }
    }

    /// Write a whole bank of ROM data starting at `address`: the first bank-length bytes
    /// of `bankdata`. Fails, changing nothing, when the last address of the bank is out
    /// of range.
    pub fn put_bank(&mut self, banktype: BankSize, address: usize, bankdata: &[u8]) -> (r: Result<
        (),
        InvalidAddressError,
    >)
        requires
            old(self).wf(),
            bankdata@.len() >= banktype.spec_bytes(),
            address + banktype.spec_bytes() <= usize::MAX,
        ensures
            final(self).wf(),
            r is Ok <==> address + banktype.spec_bytes() - 1 < MEMORY_SIZE,
            final(self)@ == write_bank(
                old(self)@,
                address as int,
                banktype.spec_bytes() as int,
                bankdata@,
            ),
            r matches Err(e) ==> e@ == address + banktype.spec_bytes() - 1,
    {
        let len = banktype.bytes();
        match address_is_valid(address + len - 1) {
            Ok(_t) => {
                let ghost start = self.memory@;
                let mut offset: usize = 0;
                while offset < len
                    invariant
                        start.len() == MEMORY_SIZE,
                        len == banktype.spec_bytes(),
                        address + len - 1 < MEMORY_SIZE,
                        bankdata@.len() >= len,
                        offset <= len,
                        self.memory@.len() == MEMORY_SIZE,
                        forall|i: int|
                            0 <= i < MEMORY_SIZE ==> #[trigger] self.memory@[i] == if address <= i
                                < address + offset {
                                bankdata@[i - address]
                            } else {
                                start[i]
                            },
                    decreases len - offset,
                {
                    self.memory.set(address + offset, bankdata[offset]);
                    offset = offset + 1;
                }
                assert(self.memory@ =~= write_bank(start, address as int, len as int, bankdata@));
                Ok(())
            },
            Err(e) => Err(e),
        }
    }

    /// Write a word little-endian at `address` (low byte first).
    pub fn _put_word(&mut self, address: usize, word: u16) -> (r: Result<(), InvalidAddressError>)
        requires
            old(self).wf(),
            address < usize::MAX,
        ensures
            final(self).wf(),
            r is Ok <==> address + 1 < MEMORY_SIZE,
            final(self)@ == write_word(old(self)@, address as int, word),
            r matches Err(e) ==> e@ == address + 1,
    {
        match address_is_valid(address + 1) {
            Ok(_t) => {
                let lo: u8 = (word & 0xFF) as u8;
                let hi: u8 = (word >> 8) as u8;
                assert(lo == word % 256 && hi == word / 256) by (bit_vector)
                    requires
                        lo == (word & 0xFF) as u8,
                        hi == (word >> 8) as u8,
                ;
                self.memory.set(address, lo);
                self.memory.set(address + 1, hi);
                Ok(())
            },
            Err(e) => Err(e),
        }
    }

    /// Read the little-endian word at `address`.
    pub fn get_word(&self, address: usize) -> (r: Result<u16, InvalidAddressError>)
        requires
            self.wf(),
            address < usize::MAX,
        ensures
            r is Ok <==> address + 1 < MEMORY_SIZE,
            r matches Ok(v) ==> read_word(self@, address as int) == Some(v),
            r matches Err(e) ==> e@ == address + 1,
    {
        match address_is_valid(address + 1) {
            Ok(_t) => {
                let lo = self.memory[address];
                let hi = self.memory[address + 1];
                let w: u16 = (lo as u16) | ((hi as u16) << 8);
                assert(w == lo + 256 * hi) by (bit_vector)
                    requires
                        w == (lo as u16) | ((hi as u16) << 8),
                ;
                Ok(w)
            },
            Err(e) => Err(e),
        }
    }
}

/// Compose an absolute address out of a bank number and an address within that bank.
pub fn compose_address(bank: u8, byte_addr: u16) -> (a: usize)
    ensures
        a == bank * 0x10000 + byte_addr,
        a < MEMORY_SIZE,
{
    let a = ((bank as usize) << MEMORY_BANK_INDEX) | byte_addr as usize;
    assert(a == bank * 0x10000 + byte_addr) by (bit_vector)
        requires
            a == ((bank as usize) << 16u8) | byte_addr as usize,
    ;
    a
}

/// Check that an address lies within 0x000000 - 0xFFFFFF.
pub fn address_is_valid(address: usize) -> (r: Result<(), InvalidAddressError>)
    ensures
        r is Ok <==> address < MEMORY_SIZE,
        r matches Err(e) ==> e@ == address,
{
    if address < MEMORY_SIZE {
        Ok(())
    } else {
        Err(InvalidAddressError::new(address))
    }
}

/// A byte written at an address in range reads back, and every other address reads as
/// before; a write out of range changes nothing, and a read there fails.
pub proof fn lemma_byte_read_after_write(m: Seq<u8>, a: int, b: u8, c: int)
    requires
        m.len() == MEMORY_SIZE,
    ensures
        0 <= a < MEMORY_SIZE ==> read_byte(write_byte(m, a, b), a) == Some(b),
        c != a ==> read_byte(write_byte(m, a, b), c) == read_byte(m, c),
        !(0 <= a < MEMORY_SIZE) ==> write_byte(m, a, b) == m && read_byte(m, a) is None,
{
}

/// A word written at an address whose two bytes are in range reads back; it is stored
/// little-endian (low byte first), and the other addresses keep their bytes.
pub proof fn lemma_word_read_after_write(m: Seq<u8>, a: int, w: u16, c: int)
    requires
        m.len() == MEMORY_SIZE,
        0 <= a,
        a + 1 < MEMORY_SIZE,
    ensures
        read_word(write_word(m, a, w), a) == Some(w),
        read_byte(write_word(m, a, w), a) == Some((w % 256) as u8),
        read_byte(write_word(m, a, w), a + 1) == Some((w / 256) as u8),
        c != a && c != a + 1 ==> read_byte(write_word(m, a, w), c) == read_byte(m, c),
{
    let m2 = write_word(m, a, w);
    assert(m2[a] == (w % 256) as u8);
    assert(m2[a + 1] == (w / 256) as u8);
    assert(word_of((w % 256) as u8, (w / 256) as u8) == w) by (nonlinear_arith);
}

/// The bytes of a word read back as that word: a word is its low byte plus 256 times
/// its high byte.
pub proof fn lemma_word_of_bytes(lo: u8, hi: u8)
    ensures
        word_of(lo, hi) % 256 == lo,
        word_of(lo, hi) / 256 == hi,
{
    assert((lo + 256 * hi) % 256 == lo && (lo + 256 * hi) / 256 == hi) by (nonlinear_arith);
}

} // verus!
