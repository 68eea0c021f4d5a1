//! The instruction set: six opcodes with fixed one-byte codes 1 through 6.
//!
//! Two slots (codes 1 and 4) are recognized by the decoder but have
//! intentionally undetermined semantics; executing them raises a fault
//! instead of halting cleanly.

use vstd::prelude::*;

use crate::memory::{read16, write16, Memory, MEM_SIZE};
use crate::value::Value;

verus! {

/// Decode failure: the byte is not a known opcode code.  This is the
/// virtual machine's only graceful halt condition.
#[derive(Debug, Clone, Copy, PartialEq, Eq, Structural)]
pub struct InvalidOp;

/// How an evaluation step can fail.
#[derive(Debug, Clone, Copy, PartialEq, Eq, Structural)]
pub enum Fault {
    /// The byte at the program counter decodes to no opcode: the clean halt.
    InvalidOpcode,
    /// A reserved opcode was executed; its semantics are undetermined.
    UnimplementedOpcode,
    /// A two-byte access would run past the end of memory.
    OutOfBounds,
}

/// The opcode vocabulary.  `Reserved1` and `Reserved2` hold codes 1 and 4,
/// whose semantics are not yet determined.
#[derive(Debug, Clone, Copy, PartialEq, Eq, Structural)]
#[allow(non_camel_case_types)]
pub enum Op {
    Reserved1,
    SUB,
    SET,
    Reserved2,
    LOD,
    STR,
}

/// The fixed one-byte code of each opcode.
pub open spec fn code_of(op: Op) -> u8 {
    match op {
        Op::Reserved1 => 1,
        Op::SUB => 2,
        Op::SET => 3,
        Op::Reserved2 => 4,
        Op::LOD => 5,
        Op::STR => 6,
    }
}

/// The opcode with code `c`, if `c` is one of 1 through 6.
pub open spec fn op_of_code(c: u8) -> Result<Op, InvalidOp> {
    if c == 1 {
        Ok(Op::Reserved1)
    } else if c == 2 {
        Ok(Op::SUB)
    } else if c == 3 {
        Ok(Op::SET)
    } else if c == 4 {
        Ok(Op::Reserved2)
    } else if c == 5 {
        Ok(Op::LOD)
    } else if c == 6 {
        Ok(Op::STR)
    } else {
        Err(InvalidOp)
    }
}

/// The opcode named by a built-in mnemonic, if any.  Only the four
/// implemented opcodes have mnemonics.
pub open spec fn op_of_mnemonic(s: Seq<char>) -> Option<Op> {
    if s == "SUB"@ {
        Some(Op::SUB)
    } else if s == "SET"@ {
        Some(Op::SET)
    } else if s == "LOD"@ {
        Some(Op::LOD)
    } else if s == "STR"@ {
        Some(Op::STR)
    } else {
        None
    }
}

/// 16-bit wrapping subtraction.
pub open spec fn sub16(x: u16, y: u16) -> u16 {
    if x >= y {
        (x - y) as u16
    } else {
        (x + 0x10000 - y) as u16
    }
}

/// The effect of one opcode on memory, or the fault it raises.
///
/// `Sub` subtracts the word at `b` from the word at `a`, wrapping.
/// `Set` stores the immediate `b` at `a`.  `Lod` loads through the pointer
/// stored at `b` into `a`.  `Str` stores the word at `a` through the pointer
/// stored at `b`.
pub open spec fn op_exec_spec(op: Op, mem: Seq<u8>, a: u16, b: u16) -> Result<Seq<u8>, Fault> {
    match op {
        Op::Reserved1 => Err(Fault::UnimplementedOpcode),
        Op::Reserved2 => Err(Fault::UnimplementedOpcode),
        Op::SUB => if a + 2 <= MEM_SIZE && b + 2 <= MEM_SIZE {
            Ok(write16(mem, a as int, sub16(read16(mem, a as int), read16(mem, b as int))))
        } else {
            Err(Fault::OutOfBounds)
        },
        Op::SET => if a + 2 <= MEM_SIZE {
            Ok(write16(mem, a as int, b))
        } else {
            Err(Fault::OutOfBounds)
        },
        Op::LOD => if a + 2 <= MEM_SIZE && b + 2 <= MEM_SIZE {
            let ptr = read16(mem, b as int);
            if ptr + 2 <= MEM_SIZE {
                Ok(write16(mem, a as int, read16(mem, ptr as int)))
            } else {
                Err(Fault::OutOfBounds)
            }
        } else {
            Err(Fault::OutOfBounds)
        },
        Op::STR => if a + 2 <= MEM_SIZE && b + 2 <= MEM_SIZE {
            let ptr = read16(mem, b as int);
            if ptr + 2 <= MEM_SIZE {
                Ok(write16(mem, ptr as int, read16(mem, a as int)))
            } else {
                Err(Fault::OutOfBounds)
            }
        } else {
            Err(Fault::OutOfBounds)
        },
    }
}

fn wrap_sub(x: u16, y: u16) -> (r: u16)
    ensures
        r == sub16(x, y),
{
    if x >= y {
        x - y
    } else {
        ((x as u32 + 0x10000 - y as u32) as u16)
    }
}

impl Op {
    /// The fixed one-byte code of this opcode.
    pub fn code(&self) -> (c: u8)
        ensures
            c == code_of(*self),
    {
        match self {
            Op::Reserved1 => 1,
            Op::SUB => 2,
            Op::SET => 3,
            Op::Reserved2 => 4,
            Op::LOD => 5,
            Op::STR => 6,
        }
    }

    /// The opcode with code `c`, or `InvalidOp`.
    pub fn from_code(c: u8) -> (r: Result<Op, InvalidOp>)
        ensures
            r == op_of_code(c),
    {
        if c == 1 {
            Ok(Op::Reserved1)
        } else if c == 2 {
            Ok(Op::SUB)
        } else if c == 3 {
            Ok(Op::SET)
        } else if c == 4 {
            Ok(Op::Reserved2)
        } else if c == 5 {
            Ok(Op::LOD)
        } else if c == 6 {
            Ok(Op::STR)
        } else {
            Err(InvalidOp)
        }
    }

    /// The opcode named by a built-in mnemonic, or `InvalidOp`.
    pub fn from_mnemonic(s: &String) -> (r: Result<Op, InvalidOp>)
        ensures
            match op_of_mnemonic(s@) {
                Some(op) => r == Ok::<Op, InvalidOp>(op),
                None => r == Err::<Op, InvalidOp>(InvalidOp),
            },
    {
        let sub: String = String::from_str("SUB");
        let set: String = String::from_str("SET");
        let lod: String = String::from_str("LOD");
        let strn: String = String::from_str("STR");
        if *s == sub {
            Ok(Op::SUB)
        } else if *s == set {
            Ok(Op::SET)
        } else if *s == lod {
            Ok(Op::LOD)
        } else if *s == strn {
            Ok(Op::STR)
        } else {
            Err(InvalidOp)
        }
    }

    /// Applies this opcode's effect to memory, or reports the fault.
    /// On a fault, memory is left unchanged.
    pub fn execute(&self, mem: &mut Memory, a: Value, b: Value) -> (r: Result<(), Fault>)
        requires
            old(mem).wf(),
        ensures
            final(mem).wf(),
            match op_exec_spec(*self, old(mem)@, a@, b@) {
                Ok(m2) => r is Ok && final(mem)@ == m2,
                Err(f) => r == Err::<(), Fault>(f) && final(mem)@ == old(mem)@,
            },
    {
        match self {
            Op::Reserved1 => Err(Fault::UnimplementedOpcode),
            Op::Reserved2 => Err(Fault::UnimplementedOpcode),
            Op::SUB => {
                if a.0 as usize + 2 <= MEM_SIZE && b.0 as usize + 2 <= MEM_SIZE {
                    let x = mem.read(a);
                    let y = mem.read(b);
                    mem.write(a, Value(wrap_sub(x.0, y.0)));
                    Ok(())
                } else {
                    Err(Fault::OutOfBounds)
                }
            },
            Op::SET => {
                if a.0 as usize + 2 <= MEM_SIZE {
                    mem.write(a, b);
                    Ok(())
                } else {
                    Err(Fault::OutOfBounds)
                }
            },
            Op::LOD => {
                if a.0 as usize + 2 <= MEM_SIZE && b.0 as usize + 2 <= MEM_SIZE {
                    let ptr = mem.read(b);
                    if ptr.0 as usize + 2 <= MEM_SIZE {
                        let data = mem.read(ptr);
                        mem.write(a, data);
                        Ok(())
                    } else {
                        Err(Fault::OutOfBounds)
                    }
                } else {
                    Err(Fault::OutOfBounds)
                }
            },
            Op::STR => {
                if a.0 as usize + 2 <= MEM_SIZE && b.0 as usize + 2 <= MEM_SIZE {
                    let data = mem.read(a);
                    let ptr = mem.read(b);
                    if ptr.0 as usize + 2 <= MEM_SIZE {
                        mem.write(ptr, data);
                        Ok(())
                    } else {
                        Err(Fault::OutOfBounds)
                    }
                } else {
                    Err(Fault::OutOfBounds)
                }
            },
        }
    }
}

} // verus!
