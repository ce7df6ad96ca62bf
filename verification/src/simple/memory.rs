//! The 64 KiB memory of the minimal machine.
use vstd::prelude::*;

verus! {

/// Size of the memory, in bytes.
pub const MEMORY_SIZE: usize = 0xFFFF;

/// The memory: one byte per address.
pub struct Memory {
    memory: [u8; MEMORY_SIZE],
}

impl View for Memory {
    type V = Seq<u8>;

    closed spec fn view(&self) -> Seq<u8> {
        self.memory@
    }
}

/// `m` with its first bytes replaced by `chunk`.
pub open spec fn with_prefix(m: Seq<u8>, chunk: Seq<u8>) -> Seq<u8> {
    chunk + m.skip(chunk.len() as int)
}

impl Memory {
    /// A memory of zeros.
    pub fn new() -> (m: Self)
        ensures
            m@ == Seq::new(MEMORY_SIZE as nat, |i: int| 0u8),
    {
        let m = Memory { memory: [0u8; 0xFFFF] };
        assert(m@ =~= Seq::new(MEMORY_SIZE as nat, |i: int| 0u8));
        m
    }

    /// The number of bytes.
    pub fn len(&self) -> (n: usize)
        ensures
            n == self@.len(),
            n == MEMORY_SIZE,
    {
        proof {
            assert(self.memory@.len() == MEMORY_SIZE);
        }
        MEMORY_SIZE
    }

    /// The byte at `index`.
    pub fn read(&self, index: usize) -> (b: u8)
        requires
            index < MEMORY_SIZE,
        ensures
            b == self@[index as int],
    {
        self.memory[index]
    }

    /// Copy one chunk read from a ROM file over the start of memory: a read of a file
    /// fills the memory from its first byte, so each chunk replaces the one before.
    pub fn write_chunk(&mut self, chunk: &[u8])
        requires
            chunk@.len() <= MEMORY_SIZE,
        ensures
            final(self)@ == with_prefix(old(self)@, chunk@),
    {
        let mut i: usize = 0;
        while i < chunk.len()
            invariant
                i <= chunk@.len(),
                chunk@.len() <= MEMORY_SIZE,
                self@.len() == MEMORY_SIZE,
                forall|j: int| 0 <= j < i ==> self@[j] == chunk@[j],
                forall|j: int| i <= j < MEMORY_SIZE ==> self@[j] == old(self)@[j],
            decreases chunk@.len() - i,
        {
            self.memory[i] = chunk[i];
            i = i + 1;
        }
        assert(self@ =~= with_prefix(old(self)@, chunk@));
    }
}

/// Loading chunk after chunk: a chunk at least as long as the one before covers it, so
/// the memory is as if only the later chunk had been written.
pub proof fn lemma_later_chunk_wins(m: Seq<u8>, a: Seq<u8>, b: Seq<u8>)
    requires
        a.len() <= b.len() <= m.len(),
    ensures
        with_prefix(with_prefix(m, a), b) == with_prefix(m, b),
{
    assert(with_prefix(with_prefix(m, a), b) =~= with_prefix(m, b));
}

} // verus!
