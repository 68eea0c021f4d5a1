//! The macro registry and deferred macro calls.
//!
//! The registry is a fixed, build-time table mapping a macro name to one of
//! two native capability shapes: a *preprocess* capability, which runs
//! during compilation and may pull further source units into the compiler,
//! and a *deferred* capability, which is captured in the compiled program
//! and runs once per machine loop iteration in which the program counter
//! sits at the address it was compiled at.

use vstd::prelude::*;

use crate::ast::{Ident, IdentV};
use crate::memory::{read16, Memory, MEM_SIZE};
use crate::value::{hex_literal, Value};

verus! {

/// A macro-call argument: the raw identifier and, when the redirect rule
/// could resolve it at compile time, its value.  Absence of a value is
/// legal for macro arguments.
#[derive(Debug)]
pub struct Meta {
    pub id: Ident,
    pub val: Option<Value>,
}

/// The mathematical image of a `Meta`.
pub struct MetaV {
    pub id: IdentV,
    pub val: Option<u16>,
}

impl View for Meta {
    type V = MetaV;

    open spec fn view(&self) -> MetaV {
        MetaV {
            id: self.id@,
            val: match self.val {
                Some(v) => Some(v@),
                None => None,
            },
        }
    }
}

impl Meta {
    /// A deep copy.
    pub fn duplicate(&self) -> (r: Meta)
        ensures
            r@ == self@,
    {
        Meta { id: self.id.duplicate(), val: self.val }
    }
}

/// The views of a sequence of Metas.
pub open spec fn metas_view(s: Seq<Meta>) -> Seq<MetaV> {
    s.map_values(|m: Meta| m@)
}

/// The deferred native capabilities: they run against live memory while
/// the machine loops.
#[derive(Debug, Clone, Copy, PartialEq, Eq, Structural)]
pub enum Deferred {
    /// Reports, for each argument, the word currently stored at the
    /// argument's resolved address.
    PrintMem,
}

/// The preprocess native capabilities: they run during compilation with
/// full compiler access.
#[derive(Debug, Clone, Copy, PartialEq, Eq, Structural)]
pub enum Preprocess {
    /// Pulls the source units named by the raw arguments into the
    /// compilation.
    Import,
}

/// A macro's native capability: one of two genuinely different execution
/// contexts, compile time or run time.
#[derive(Debug, Clone, Copy, PartialEq, Eq, Structural)]
pub enum Macro {
    Fn(Deferred),
    Preprocess(Preprocess),
}

/// The fixed, build-time macro registry.
pub open spec fn macro_of_name(s: Seq<char>) -> Option<Macro> {
    if s == "print_mem"@ {
        Some(Macro::Fn(Deferred::PrintMem))
    } else if s == "import"@ {
        Some(Macro::Preprocess(Preprocess::Import))
    } else {
        None
    }
}

/// Looks a macro name up in the registry.
pub fn lookup_macro(name: &String) -> (r: Option<Macro>)
    ensures
        r == macro_of_name(name@),
{
    let print_mem: String = String::from_str("print_mem");
    let import_name: String = String::from_str("import");
    if *name == print_mem {
        Some(Macro::Fn(Deferred::PrintMem))
    } else if *name == import_name {
        Some(Macro::Preprocess(Preprocess::Import))
    } else {
        None
    }
}

/// The line `print_mem` produces for one argument: the raw identifier
/// text, then the word currently stored at the resolved address, or
/// `none` when the argument did not resolve or its address cannot be read.
pub open spec fn meta_line(m: MetaV, mem: Seq<u8>) -> Seq<char> {
    m.id.literal + seq![':', ' '] + match m.val {
        Some(v) => if v + 2 <= MEM_SIZE {
            hex_literal(read16(mem, v as int))
        } else {
            seq!['n', 'o', 'n', 'e']
        },
        None => seq!['n', 'o', 'n', 'e'],
    }
}

/// The lines one deferred call produces against a memory state.
pub open spec fn macro_lines(args: Seq<MetaV>, mem: Seq<u8>) -> Seq<Seq<char>> {
    args.map_values(|m: MetaV| meta_line(m, mem))
}

/// The views of a sequence of output lines.
pub open spec fn lines_view(s: Seq<String>) -> Seq<Seq<char>> {
    s.map_values(|x: String| x@)
}

/// A deferred macro call captured in the compiled program: the native
/// capability and the Metas made from its arguments.  Never encoded into
/// memory.
#[derive(Debug)]
pub struct MacroCall {
    pub called: Deferred,
    pub args: Vec<Meta>,
}

/// The mathematical image of a deferred macro call.
pub struct MacroCallV {
    pub called: Deferred,
    pub args: Seq<MetaV>,
}

impl View for MacroCall {
    type V = MacroCallV;

    open spec fn view(&self) -> MacroCallV {
        MacroCallV { called: self.called, args: metas_view(self.args@) }
    }
}

impl MacroCall {
    /// A deep copy.
    pub fn duplicate(&self) -> (r: MacroCall)
        ensures
            r@ == self@,
    {
        let mut args: Vec<Meta> = Vec::new();
        let n = self.args.len();
        let mut i: usize = 0;
        while i < n
            invariant
                n == self.args@.len(),
                0 <= i <= n,
                args@.len() == i,
                forall|j: int| 0 <= j < i ==> args@[j]@ == self.args@[j]@,
            decreases n - i,
        {
            args.push(self.args[i].duplicate());
            i = i + 1;
        }
        let r = MacroCall { called: self.called, args };
        proof {
            assert(metas_view(r.args@) =~= metas_view(self.args@));
        }
        r
    }

    /// Invokes the deferred capability against live memory, returning the
    /// lines it reports.  `print_mem` reads memory and never changes it.
    pub fn call(&self, mem: &mut Memory) -> (lines: Vec<String>)
        requires
            old(mem).wf(),
        ensures
            final(mem).wf(),
            final(mem)@ == old(mem)@,
            lines_view(lines@) == macro_lines(self@.args, old(mem)@),
    {
        match self.called {
            Deferred::PrintMem => {
                let mut lines: Vec<String> = Vec::new();
                let n = self.args.len();
                let mut i: usize = 0;
                while i < n
                    invariant
                        mem.wf(),
                        mem@ == old(mem)@,
                        n == self.args@.len(),
                        0 <= i <= n,
                        lines@.len() == i,
                        forall|j: int|
                            0 <= j < i ==> lines@[j]@ == meta_line(self.args@[j]@, mem@),
                    decreases n - i,
                {
                    let mut line: String = self.args[i].id.literal().clone();
                    line.append(": ");
                    match self.args[i].val {
                        Some(v) => {
                            if v.0 as usize + 2 <= MEM_SIZE {
                                let w = mem.read(v);
                                let hex = w.to_hex();
                                line.append(hex.as_str());
                            } else {
                                line.append("none");
                            }
                        },
                        None => {
                            line.append("none");
                        },
                    }
                    proof {
                        reveal_strlit(": ");
                        reveal_strlit("none");
                        assert(line@ =~= meta_line(self.args@[i as int]@, mem@));
                    }
                    lines.push(line);
                    i = i + 1;
                }
                proof {
                    assert(lines_view(lines@) =~= macro_lines(self@.args, old(mem)@));
                }
                lines
            },
        }
    }
}

} // verus!
