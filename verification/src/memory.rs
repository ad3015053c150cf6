//! The working memory: 64 KiB of bytes addressed by a word.

use crate::utils::{high_byte, join_bytes, low_byte, spec_high, spec_join, spec_low};
use vstd::prelude::*;

verus! {

/// Number of bytes that a word can address.
pub const MEMORY_SIZE: usize = 65536;

/// The address that follows `addr`, the last address being followed by the
/// first.
pub open spec fn spec_next_addr(addr: u16) -> u16 {
    ((addr + 1) % 0x1_0000) as u16
}

/// The word stored at `addr` in `bytes`: low byte at `addr`, high byte at
/// the address that follows.
pub open spec fn spec_word_at(bytes: Seq<u8>, addr: u16) -> u16 {
    spec_join(bytes[spec_next_addr(addr) as int], bytes[addr as int])
}

/// `bytes` with the word `v` stored at `addr`: low byte at `addr`, high byte
/// at the address that follows.
pub open spec fn spec_store_word(bytes: Seq<u8>, addr: u16, v: u16) -> Seq<u8> {
    bytes.update(spec_next_addr(addr) as int, spec_high(v)).update(addr as int, spec_low(v))
}

/// Working memory.
#[derive(Debug)]
pub struct Memory {
    pub mem: Vec<u8>,
}

impl View for Memory {
    type V = Seq<u8>;

    open spec fn view(&self) -> Seq<u8> {
        self.mem@
    }
}

impl Memory {
    /// Every address has a byte.
    pub open spec fn wf(&self) -> bool {
        self@.len() == MEMORY_SIZE
    }

    /// A memory of zeros.
    pub fn new() -> (m: Memory)
        ensures
            m.wf(),
            forall|i: int| 0 <= i < MEMORY_SIZE ==> m@[i] == 0,
    {
        let mut mem: Vec<u8> = Vec::with_capacity(MEMORY_SIZE);
        let mut n: usize = 0;
        while n < MEMORY_SIZE
            invariant
                n <= MEMORY_SIZE,
                mem@.len() == n,
                forall|i: int| 0 <= i < n ==> mem@[i] == 0,
            decreases MEMORY_SIZE - n,
        {
            mem.push(0);
            n = n + 1;
        }
        Memory { mem }
    }

    /// Reads the byte at `addr`.
    pub fn read_byte(&self, addr: u16) -> (v: u8)
        requires
            self.wf(),
        ensures
            v == self@[addr as int],
    {
        self.mem[addr as usize]
    }

    /// Reads the little-endian word at `addr`.
    pub fn read_word(&self, addr: u16) -> (v: u16)
        requires
            self.wf(),
        ensures
            v == spec_word_at(self@, addr),
    {
        let a = self.read_byte(addr);
        let b = self.read_byte(addr.wrapping_add(1));
        join_bytes(b, a)
    }

    /// Writes the byte at `addr`.
    pub fn write_byte(&mut self, addr: u16, v: u8)
        requires
            old(self).wf(),
        ensures
            final(self)@ == old(self)@.update(addr as int, v),
            final(self).wf(),
    {
        self.mem.set(addr as usize, v);
    }

    /// Writes the little-endian word at `addr`.
    pub fn write_word(&mut self, addr: u16, v: u16)
        requires
            old(self).wf(),
        ensures
            final(self)@ == spec_store_word(old(self)@, addr, v),
            final(self).wf(),
    {
        self.write_byte(addr.wrapping_add(1), high_byte(v));
        self.write_byte(addr, low_byte(v));
    }

    /// The bytes from `addr.0` up to, not including, `addr.1`.
    pub fn read_range(&self, addr: (u16, u16)) -> (bytes: Vec<u8>)
        requires
            self.wf(),
            addr.0 <= addr.1,
        ensures
            bytes@ == self@.subrange(addr.0 as int, addr.1 as int),
    {
        let mut a: Vec<u8> = Vec::with_capacity((addr.1 - addr.0) as usize);
        let mut x: u16 = addr.0;
        while x < addr.1
            invariant
                self.wf(),
                addr.0 <= x <= addr.1,
                a@ == self@.subrange(addr.0 as int, x as int),
            decreases addr.1 - x,
        {
            a.push(self.mem[x as usize]);
            x = x + 1;
            assert(a@ =~= self@.subrange(addr.0 as int, x as int));
        }
        a
    }

    /// Copies the contents of a file into memory, its first byte going to
    /// `addr`.
    pub fn write_from_file(&mut self, addr: u16, data: &Vec<u8>)
        requires
            old(self).wf(),
            addr + data@.len() <= MEMORY_SIZE,
        ensures
            final(self).wf(),
            forall|i: int|
                0 <= i < MEMORY_SIZE ==> final(self)@[i] == (if addr <= i < addr + data@.len() {
                    data@[i - addr]
                } else {
                    old(self)@[i]
                }),
    {
        let mut n: usize = 0;
        while n < data.len()
            invariant
                self.wf(),
                n <= data@.len(),
                addr + data@.len() <= MEMORY_SIZE,
                forall|i: int|
                    0 <= i < MEMORY_SIZE ==> self@[i] == (if addr <= i < addr + n {
                        data@[i - addr]
                    } else {
                        old(self)@[i]
                    }),
            decreases data@.len() - n,
        {
            self.mem.set(addr as usize + n, data[n]);
            n = n + 1;
        }
    }
}

/// A word written to memory is read back unchanged, its low byte from the
/// address written and its high byte from the address that follows.
pub proof fn lemma_word_round_trip(bytes: Seq<u8>, addr: u16, v: u16)
    requires
        bytes.len() == MEMORY_SIZE,
    ensures
        spec_word_at(spec_store_word(bytes, addr, v), addr) == v,
        spec_store_word(bytes, addr, v)[addr as int] == v % 256,
        spec_store_word(bytes, addr, v)[spec_next_addr(addr) as int] == v / 256,
        spec_store_word(bytes, addr, v).len() == MEMORY_SIZE,
{
}

} // verus!
