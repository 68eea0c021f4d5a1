//! The runner's mathematical model.
//!
//! Loading writes the program's commands into memory five bytes at a time
//! from the entry address and indexes each deferred macro call by the
//! address its position would have received.  Running is a fetch-decode-
//! execute loop: the program counter lives in the word at address 0, due
//! macro calls fire before the instruction at their address executes, and
//! the counter is advanced by five and written back each iteration.  The
//! counter cell is ordinary memory: commands and macros that write address
//! 0 redirect control flow.

use vstd::prelude::*;

use crate::command::{encode5, eval_spec};
use crate::compiler::EntryV;
use crate::macros::{macro_lines, MacroCall, MacroCallV};
use crate::memory::{read16, splice, write16};
use crate::op::Fault;

verus! {

/// How a run ends.
#[derive(Debug, Clone, Copy, PartialEq, Eq, Structural)]
pub enum RunOutcome {
    /// The byte at the program counter decodes to no opcode: the clean
    /// "Aborted" halt, the machine's only graceful termination.
    InvalidOpcode,
    /// A reserved opcode was executed.
    UnimplementedOpcode,
    /// A two-byte access or a fetch would run past the end of memory.
    OutOfBounds,
    /// Advancing the program counter would leave the 16-bit word range.
    PcOverflow,
    /// The step budget ran out before the machine halted.
    StepLimit,
    /// The program does not fit between the entry address and the end of
    /// the address space.
    TooLarge,
}

/// The outcome a halting fault maps to.
pub open spec fn outcome_of_fault(f: Fault) -> RunOutcome {
    match f {
        Fault::InvalidOpcode => RunOutcome::InvalidOpcode,
        Fault::UnimplementedOpcode => RunOutcome::UnimplementedOpcode,
        Fault::OutOfBounds => RunOutcome::OutOfBounds,
    }
}

/// The views of the macro placement list: bound address and call.
pub open spec fn placements_view(s: Seq<(u16, MacroCall)>) -> Seq<(u16, MacroCallV)> {
    s.map_values(|p: (u16, MacroCall)| (p.0, p.1@))
}

/// Loading: each command takes the next five bytes; a deferred macro call
/// takes no bytes and is indexed by the address its position would have
/// received.  `None` when a command's five bytes would not leave the next
/// address representable in a word.
pub open spec fn load_spec(mem: Seq<u8>, entries: Seq<EntryV>, at: u16) -> Option<
    (Seq<u8>, Seq<(u16, MacroCallV)>),
>
    decreases entries.len(),
{
    if entries.len() == 0 {
        Some((mem, Seq::empty()))
    } else {
        match entries[0] {
            EntryV::Command(c) => if at + 5 <= u16::MAX {
                load_spec(splice(mem, at as int, encode5(c)), entries.drop_first(), (at + 5) as u16)
            } else {
                None
            },
            EntryV::MacroCall(mc) => match load_spec(mem, entries.drop_first(), at) {
                Some(r) => Some((r.0, seq![(at, mc)] + r.1)),
                None => None,
            },
        }
    }
}

/// The output of firing every macro call bound at `pc`, in registration
/// order, against the current memory.
pub open spec fn fire_spec(macros: Seq<(u16, MacroCallV)>, pc: u16, mem: Seq<u8>) -> Seq<
    Seq<char>,
>
    decreases macros.len(),
{
    if macros.len() == 0 {
        Seq::empty()
    } else {
        (if macros[0].0 == pc {
            macro_lines(macros[0].1.args, mem)
        } else {
            Seq::empty()
        }) + fire_spec(macros.drop_first(), pc, mem)
    }
}

/// One loop iteration's result: the memory it leaves, the halt outcome if
/// it halts, and the macro output it produced.
pub struct StepV {
    pub mem: Seq<u8>,
    pub halt: Option<RunOutcome>,
    pub lines: Seq<Seq<char>>,
}

/// One loop iteration: read the program counter from address 0, fire the
/// macro calls bound at it, fetch-decode-execute the command there, then
/// advance the counter cell by five.
pub open spec fn step_spec(mem: Seq<u8>, macros: Seq<(u16, MacroCallV)>) -> StepV {
    let pc = read16(mem, 0);
    let lines = fire_spec(macros, pc, mem);
    match eval_spec(mem, 0) {
        Err(f) => StepV { mem, halt: Some(outcome_of_fault(f)), lines },
        Ok(m2) => {
            let pc3 = read16(m2, 0);
            if pc3 + 5 > u16::MAX {
                StepV { mem: m2, halt: Some(RunOutcome::PcOverflow), lines }
            } else {
                StepV { mem: write16(m2, 0, (pc3 + 5) as u16), halt: None, lines }
            }
        },
    }
}

/// A whole run's result.
pub struct RunV {
    pub mem: Seq<u8>,
    pub outcome: RunOutcome,
    pub lines: Seq<Seq<char>>,
}

/// The run loop, bounded by a step budget.
pub open spec fn run_spec(mem: Seq<u8>, macros: Seq<(u16, MacroCallV)>, steps: nat) -> RunV
    decreases steps,
{
    if steps == 0 {
        RunV { mem, outcome: RunOutcome::StepLimit, lines: Seq::empty() }
    } else {
        let s = step_spec(mem, macros);
        match s.halt {
            Some(o) => RunV { mem: s.mem, outcome: o, lines: s.lines },
            None => {
                let r = run_spec(s.mem, macros, (steps - 1) as nat);
                RunV { mem: r.mem, outcome: r.outcome, lines: s.lines + r.lines }
            },
        }
    }
}

/// What a run reports back: how it ended and the macro output, in order.
#[derive(Debug)]
pub struct RunReport {
    pub outcome: RunOutcome,
    pub output: Vec<String>,
}

} // verus!
