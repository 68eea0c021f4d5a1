//! The fixed-width binary command: one opcode byte and two little-endian
//! word operands, exactly five bytes.

use vstd::prelude::*;

use crate::memory::{Memory, MEM_SIZE};
use crate::op::{code_of, op_exec_spec, op_of_code, Fault, InvalidOp, Op};
use crate::value::Value;

verus! {

/// A binary instruction record: `{op, a, b}`, encoded in five bytes.
#[derive(Debug, Clone, Copy, PartialEq, Eq, Structural)]
pub struct Command {
    pub op: Op,
    pub a: Value,
    pub b: Value,
}

/// The five-byte encoding: opcode, then `a` and `b` little-endian.
pub open spec fn encode5(c: Command) -> Seq<u8> {
    seq![
        code_of(c.op),
        (c.a@ % 256) as u8,
        (c.a@ / 256) as u8,
        (c.b@ % 256) as u8,
        (c.b@ / 256) as u8,
    ]
}

/// Decoding of the first five bytes of `s`.
pub open spec fn decode5(s: Seq<u8>) -> Result<Command, InvalidOp>
    recommends
        s.len() >= 5,
{
    match op_of_code(s[0]) {
        Ok(op) => Ok(
            Command {
                op,
                a: Value((s[1] + 256 * s[2]) as u16),
                b: Value((s[3] + 256 * s[4]) as u16),
            },
        ),
        Err(e) => Err(e),
    }
}

/// Encoding then decoding returns the command unchanged.
pub proof fn lemma_codec_round_trip(c: Command)
    ensures
        decode5(encode5(c)) == Ok::<Command, InvalidOp>(c),
{
    assert(c.a@ % 256 + 256 * (c.a@ / 256) == c.a@);
    assert(c.b@ % 256 + 256 * (c.b@ / 256) == c.b@);
}

impl Command {
    pub fn new(op: Op, a: Value, b: Value) -> (r: Command)
        ensures
            r == (Command { op, a, b }),
    {
        Command { op, a, b }
    }

    /// Applies the command's opcode effect to memory.
    pub fn execute(&self, mem: &mut Memory) -> (r: Result<(), Fault>)
        requires
            old(mem).wf(),
        ensures
            final(mem).wf(),
            match op_exec_spec(self.op, old(mem)@, self.a@, self.b@) {
                Ok(m2) => r is Ok && final(mem)@ == m2,
                Err(f) => r == Err::<(), Fault>(f) && final(mem)@ == old(mem)@,
            },
    {
        self.op.execute(mem, self.a, self.b)
    }

    /// The five-byte binary encoding of this command.
    pub fn encode(&self) -> (r: Vec<u8>)
        ensures
            r@ =~= encode5(*self),
    {
        let mut r: Vec<u8> = Vec::new();
        r.push(self.op.code());
        r.push((self.a.0 % 256) as u8);
        r.push((self.a.0 / 256) as u8);
        r.push((self.b.0 % 256) as u8);
        r.push((self.b.0 / 256) as u8);
        r
    }

    /// Decodes the first five bytes of `bytes`.
    pub fn decode(bytes: &Vec<u8>) -> (r: Result<Command, InvalidOp>)
        requires
            bytes@.len() >= 5,
        ensures
            r == decode5(bytes@),
    {
        let op = match Op::from_code(bytes[0]) {
            Ok(op) => op,
            Err(e) => {
                return Err(e);
            },
        };
        let a = Value(bytes[1] as u16 + 256 * bytes[2] as u16);
        let b = Value(bytes[3] as u16 + 256 * bytes[4] as u16);
        Ok(Command { op, a, b })
    }
}

/// One fetch-decode-execute step taken at the program counter read from the
/// word at `cell`: the fault it halts with, or the memory it leaves.
pub open spec fn eval_spec(mem: Seq<u8>, cell: u16) -> Result<Seq<u8>, Fault> {
    let pc = crate::memory::read16(mem, cell as int);
    if pc + 5 > MEM_SIZE {
        Err(Fault::OutOfBounds)
    } else {
        match decode5(mem.subrange(pc as int, pc as int + 5)) {
            Ok(cmd) => op_exec_spec(cmd.op, mem, cmd.a@, cmd.b@),
            Err(_) => Err(Fault::InvalidOpcode),
        }
    }
}

impl Memory {
    /// Fetches, decodes and executes the command at the program counter
    /// stored in the word at `cell`.  On a fault, memory is unchanged.
    pub fn eval(&mut self, cell: Value) -> (r: Result<(), Fault>)
        requires
            old(self).wf(),
            cell@ + 2 <= MEM_SIZE,
        ensures
            final(self).wf(),
            match eval_spec(old(self)@, cell@) {
                Ok(m2) => r is Ok && final(self)@ == m2,
                Err(f) => r == Err::<(), Fault>(f) && final(self)@ == old(self)@,
            },
    {
        let pc = self.read(cell);
        if pc.0 as usize + 5 > MEM_SIZE {
            return Err(Fault::OutOfBounds);
        }
        let bytes = self.fetch5(pc.0 as usize);
        let cmd = match Command::decode(&bytes) {
            Ok(cmd) => cmd,
            Err(_) => {
                return Err(Fault::InvalidOpcode);
            },
        };
        cmd.execute(self)
    }
}

} // verus!
