//! The machine's flat byte memory.
//!
//! A `Memory` is a mutable buffer of exactly 65536 bytes.  Words are stored
//! little-endian; the two bytes at address 0 hold the live program counter.

use vstd::prelude::*;

use crate::value::Value;

verus! {

/// Size in bytes of the machine's flat memory.
pub const MEM_SIZE: usize = 65536;

/// The 16-bit word stored little-endian at byte offset `p`.
pub open spec fn read16(mem: Seq<u8>, p: int) -> u16
    recommends
        0 <= p,
        p + 2 <= mem.len(),
{
    (mem[p] + 256 * mem[p + 1]) as u16
}

/// `mem` with the word `v` stored little-endian at byte offset `p`.
pub open spec fn write16(mem: Seq<u8>, p: int, v: u16) -> Seq<u8> {
    mem.update(p, (v % 256) as u8).update(p + 1, (v / 256) as u8)
}

/// `mem` with `bs` written over the bytes starting at offset `at`.
pub open spec fn splice(mem: Seq<u8>, at: int, bs: Seq<u8>) -> Seq<u8> {
    Seq::new(
        mem.len(),
        |i: int|
            if at <= i < at + bs.len() {
                bs[i - at]
            } else {
                mem[i]
            },
    )
}

/// The flat byte buffer shared by code, data and the program counter cell.
pub struct Memory {
    bytes: Vec<u8>,
}

impl View for Memory {
    type V = Seq<u8>;

    closed spec fn view(&self) -> Seq<u8> {
        self.bytes@
    }
}

impl Memory {
    /// A memory is well formed when it has exactly `MEM_SIZE` bytes.
    pub open spec fn wf(&self) -> bool {
        self@.len() == MEM_SIZE
    }

    /// A zero-initialized memory.
    pub fn new() -> (m: Memory)
        ensures
            m.wf(),
            m@ =~= Seq::new(MEM_SIZE as nat, |i: int| 0u8),
    {
        let bytes: Vec<u8> = vec![0u8; MEM_SIZE];
        Memory { bytes }
    }

    /// Reads the word stored at address `ptr`.
    pub fn read(&self, ptr: Value) -> (v: Value)
        requires
            self.wf(),
            ptr@ + 2 <= MEM_SIZE,
        ensures
            v@ == read16(self@, ptr@ as int),
    {
        let i = ptr.0 as usize;
        let b0 = self.bytes[i];
        let b1 = self.bytes[i + 1];
        Value(b0 as u16 + 256 * b1 as u16)
    }

    /// Stores the word `value` at address `ptr`.
    pub fn write(&mut self, ptr: Value, value: Value)
        requires
            old(self).wf(),
            ptr@ + 2 <= MEM_SIZE,
        ensures
            final(self).wf(),
            final(self)@ == write16(old(self)@, ptr@ as int, value@),
    {
        let i = ptr.0 as usize;
        self.bytes[i] = (value.0 % 256) as u8;
        self.bytes[i + 1] = (value.0 / 256) as u8;
    }

    /// Copies `bs` into memory starting at offset `at`.
    pub fn store(&mut self, at: usize, bs: &Vec<u8>)
        requires
            old(self).wf(),
            at + bs@.len() <= MEM_SIZE,
        ensures
            final(self).wf(),
            final(self)@ == splice(old(self)@, at as int, bs@),
    {
        let n = bs.len();
        let mut j: usize = 0;
        while j < n
            invariant
                n == bs@.len(),
                at + n <= MEM_SIZE,
                0 <= j <= n,
                self.wf(),
                self@ =~= splice(old(self)@, at as int, bs@.take(j as int)),
            decreases n - j,
        {
            self.bytes[at + j] = bs[j];
            proof {
                assert(self@ =~= splice(old(self)@, at as int, bs@.take(j as int + 1)));
            }
            j = j + 1;
        }
        proof {
            assert(bs@.take(n as int) =~= bs@);
        }
    }

    /// The five bytes starting at offset `at`, as a fresh vector.
    pub fn fetch5(&self, at: usize) -> (r: Vec<u8>)
        requires
            self.wf(),
            at + 5 <= MEM_SIZE,
        ensures
            r@ =~= self@.subrange(at as int, at as int + 5),
    {
        let mut r: Vec<u8> = Vec::new();
        r.push(self.bytes[at]);
        r.push(self.bytes[at + 1]);
        r.push(self.bytes[at + 2]);
        r.push(self.bytes[at + 3]);
        r.push(self.bytes[at + 4]);
        r
    }
}

} // verus!
