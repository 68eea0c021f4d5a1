//! The compiler: symbol resolution and compile-time function inlining.
//!
//! The compiler owns the symbol environment (defines, active
//! function-argument bindings, the function registry and the source-unit
//! registry), walks parsed items, resolves every identifier to a concrete
//! word via the redirect rule, inlines function calls by recursive
//! re-compilation of the callee body, and produces the final ordered
//! program: a mix of concrete commands and deferred macro calls.
//!
//! There is no runtime call stack: a function call is compile-time
//! substitution with scoped save/restore of the argument bindings.  The
//! recursion this takes is bounded by a fixed depth limit; exceeding it is
//! reported as an error rather than exhausting the host stack.

use vstd::prelude::*;

use crate::ast::{
    idents_view, items_view, merge_spans, Calling, CallingV, Define, DefineV, Function, FunctionV,
    Ident, IdentV, Item, ItemV, Macro, MacroV, Span, Stmt, StmtV,
};
use crate::command::Command;
use crate::error::{CompileError, ErrorV};
use crate::macros::{
    lines_view, lookup_macro, macro_of_name, metas_view, MacroCall, MacroCallV, Meta, MetaV,
};
use crate::memory::{write16, Memory};
use crate::op::{op_of_mnemonic, Fault, Op};
use crate::table::Table;
use crate::value::{parse_value, Value};
use crate::vm::{fire_spec, load_spec, placements_view, run_spec, RunOutcome, RunReport};

verus! {

/// The fixed bound on inlining and preprocess recursion depth.
pub const INLINE_FUEL: u64 = 64;

/// A registered source unit: its parsed items, ready for a preprocess
/// macro to pull into the compilation.
#[derive(Debug)]
pub struct Unit {
    pub items: Vec<Item>,
}

impl View for Unit {
    type V = Seq<ItemV>;

    open spec fn view(&self) -> Seq<ItemV> {
        items_view(self.items@)
    }
}

/// One entry of the compiled program, in source emission order.
#[derive(Debug)]
pub enum Entry {
    Command(Command),
    MacroCall(MacroCall),
}

/// The mathematical image of a program entry.
pub enum EntryV {
    Command(Command),
    MacroCall(MacroCallV),
}

impl View for Entry {
    type V = EntryV;

    open spec fn view(&self) -> EntryV {
        match self {
            Entry::Command(c) => EntryV::Command(*c),
            Entry::MacroCall(m) => EntryV::MacroCall(m@),
        }
    }
}

/// The views of a program entry sequence.
pub open spec fn entries_view(s: Seq<Entry>) -> Seq<EntryV> {
    s.map_values(|e: Entry| e@)
}

/// The mathematical image of the whole compiler state.
pub struct CompilerV {
    pub defines: Map<Seq<char>, u16>,
    pub args: Map<Seq<char>, u16>,
    pub functions: Map<Seq<char>, FunctionV>,
    pub units: Map<Seq<char>, Seq<ItemV>>,
    pub commands: Seq<EntryV>,
}

/// The compiler.
pub struct Compiler {
    defines: Table<Value>,
    args: Table<Value>,
    functions: Table<Function>,
    units: Table<Unit>,
    commands: Vec<Entry>,
}

impl View for Compiler {
    type V = CompilerV;

    closed spec fn view(&self) -> CompilerV {
        CompilerV {
            defines: self.defines@,
            args: self.args@,
            functions: self.functions@,
            units: self.units@,
            commands: entries_view(self.commands@),
        }
    }
}

/// The redirect rule: an identifier resolves first through the active
/// argument bindings, then through the defines, and last as a numeric
/// literal; failure at every step is `UnresolvedIdentifier`.
pub open spec fn redirect_spec(
    args: Map<Seq<char>, u16>,
    defines: Map<Seq<char>, u16>,
    id: IdentV,
) -> Result<u16, ErrorV> {
    if args.contains_key(id.literal) {
        Ok(args[id.literal])
    } else if defines.contains_key(id.literal) {
        Ok(defines[id.literal])
    } else {
        match parse_value(id.literal) {
            Some(v) => Ok(v),
            None => Err(ErrorV::UnresolvedIdentifier { ident: id }),
        }
    }
}

/// Compiling a define: resolve the value, then bind the name.
pub open spec fn compile_define_spec(cv: CompilerV, d: DefineV) -> Result<CompilerV, ErrorV> {
    match redirect_spec(cv.args, cv.defines, d.value) {
        Ok(v) => Ok(CompilerV { defines: cv.defines.insert(d.name.literal, v), ..cv }),
        Err(e) => Err(e),
    }
}

/// Compiling a function definition: refuse a duplicate name, else store
/// the function unexpanded.
pub open spec fn compile_function_spec(cv: CompilerV, f: FunctionV) -> Result<CompilerV, ErrorV> {
    if cv.functions.contains_key(f.name.literal) {
        Err(
            ErrorV::DuplicateFunction {
                name: f.name,
                original: cv.functions[f.name.literal].name,
            },
        )
    } else {
        Ok(CompilerV { functions: cv.functions.insert(f.name.literal, f), ..cv })
    }
}

/// Left fold of span merging over the remaining argument spans.
pub open spec fn span_fold(rest: Seq<IdentV>, acc: Span) -> Span
    decreases rest.len(),
{
    if rest.len() == 0 {
        acc
    } else {
        span_fold(rest.drop_first(), merge_spans(acc, rest[0].location))
    }
}

/// The span a call's diagnostics point at: the merge of all argument
/// spans, or the called identifier's span when there are no arguments.
pub open spec fn args_span(called: IdentV, args: Seq<IdentV>) -> Span {
    if args.len() == 0 {
        called.location
    } else {
        span_fold(args.drop_first(), args[0].location)
    }
}

/// The views of the conflict-save list: pairs of shadowed name and value.
pub open spec fn pairs_view(s: Seq<(String, Value)>) -> Seq<(Seq<char>, u16)> {
    s.map_values(|p: (String, Value)| (p.0@, p.1@))
}

/// Eager call-by-value binding of formals to resolved actuals, in order.
/// Each actual is resolved in the environment as bound so far; a binding
/// that shadows an existing one records the shadowed value.
pub open spec fn bind_formals_spec(
    args: Map<Seq<char>, u16>,
    defines: Map<Seq<char>, u16>,
    conflicts: Seq<(Seq<char>, u16)>,
    formals: Seq<IdentV>,
    actuals: Seq<IdentV>,
) -> Result<(Map<Seq<char>, u16>, Seq<(Seq<char>, u16)>), ErrorV>
    recommends
        formals.len() == actuals.len(),
    decreases formals.len(),
{
    if formals.len() == 0 {
        Ok((args, conflicts))
    } else {
        match redirect_spec(args, defines, actuals[0]) {
            Ok(v) => {
                let k = formals[0].literal;
                let c2 = if args.contains_key(k) {
                    conflicts.push((k, args[k]))
                } else {
                    conflicts
                };
                bind_formals_spec(
                    args.insert(k, v),
                    defines,
                    c2,
                    formals.drop_first(),
                    actuals.drop_first(),
                )
            },
            Err(e) => Err(e),
        }
    }
}

/// The argument bindings with every formal's name removed.
pub open spec fn remove_keys(m: Map<Seq<char>, u16>, formals: Seq<IdentV>) -> Map<Seq<char>, u16>
    decreases formals.len(),
{
    if formals.len() == 0 {
        m
    } else {
        remove_keys(m.remove(formals[0].literal), formals.drop_first())
    }
}

/// Reinstates saved shadowed bindings, in the order they were recorded.
pub open spec fn replay(m: Map<Seq<char>, u16>, cs: Seq<(Seq<char>, u16)>) -> Map<Seq<char>, u16>
    decreases cs.len(),
{
    if cs.len() == 0 {
        m
    } else {
        replay(m.insert(cs[0].0, cs[0].1), cs.drop_first())
    }
}

/// The Metas a deferred macro call captures: one per argument, each with
/// the redirect result when it resolves.
pub open spec fn metas_spec(
    args_env: Map<Seq<char>, u16>,
    defines: Map<Seq<char>, u16>,
    args: Seq<IdentV>,
) -> Seq<MetaV> {
    args.map_values(
        |a: IdentV| MetaV {
            id: a,
            val: match redirect_spec(args_env, defines, a) {
                Ok(v) => Some(v),
                Err(_) => None,
            },
        },
    )
}

/// The central dispatch: a call of a built-in opcode mnemonic appends one
/// command; a call of a registered function is inlined by compiling its
/// body with formals bound to the resolved actuals and the caller's
/// bindings saved and restored around it; any other name is undefined.
pub open spec fn compile_calling_spec(cv: CompilerV, c: CallingV, fuel: nat) -> Result<
    CompilerV,
    ErrorV,
>
    decreases fuel, 1int, 0int, 0int,
{
    let span = args_span(c.called, c.args);
    match op_of_mnemonic(c.called.literal) {
        Some(op) => {
            if c.args.len() != 2 {
                Err(
                    ErrorV::ArityMismatch {
                        called: c.called,
                        span,
                        expected: 2,
                        actual: c.args.len() as int,
                    },
                )
            } else {
                match redirect_spec(cv.args, cv.defines, c.args[0]) {
                    Ok(a) => match redirect_spec(cv.args, cv.defines, c.args[1]) {
                        Ok(b) => Ok(
                            CompilerV {
                                commands: cv.commands.push(
                                    EntryV::Command(Command { op, a: Value(a), b: Value(b) }),
                                ),
                                ..cv
                            },
                        ),
                        Err(e) => Err(e),
                    },
                    Err(e) => Err(e),
                }
            }
        },
        None => {
            if cv.functions.contains_key(c.called.literal) {
                let f = cv.functions[c.called.literal];
                if f.args.len() != c.args.len() {
                    Err(
                        ErrorV::ArityMismatch {
                            called: c.called,
                            span,
                            expected: f.args.len() as int,
                            actual: c.args.len() as int,
                        },
                    )
                } else if fuel == 0 {
                    Err(ErrorV::RecursionLimit { called: c.called })
                } else {
                    match bind_formals_spec(
                        cv.args,
                        cv.defines,
                        Seq::empty(),
                        f.args,
                        c.args,
                    ) {
                        Ok(bound) => {
                            match compile_stmts_spec(
                                CompilerV { args: bound.0, ..cv },
                                f.body,
                                (fuel - 1) as nat,
                            ) {
                                Ok(cv2) => Ok(
                                    CompilerV {
                                        args: replay(remove_keys(cv2.args, f.args), bound.1),
                                        ..cv2
                                    },
                                ),
                                Err(e) => Err(e),
                            }
                        },
                        Err(e) => Err(e),
                    }
                }
            } else {
                Err(ErrorV::UndefinedFunction { called: c.called, span })
            }
        },
    }
}

/// A function body, statement by statement, threading the compiler state.
pub open spec fn compile_stmts_spec(cv: CompilerV, stmts: Seq<StmtV>, fuel: nat) -> Result<
    CompilerV,
    ErrorV,
>
    decreases fuel, 3int, stmts.len(), 0int,
{
    if stmts.len() == 0 {
        Ok(cv)
    } else {
        match compile_stmt_spec(cv, stmts[0], fuel) {
            Ok(cv2) => compile_stmts_spec(cv2, stmts.drop_first(), fuel),
            Err(e) => Err(e),
        }
    }
}

/// A body statement: an ordinary call or a macro invocation.
pub open spec fn compile_stmt_spec(cv: CompilerV, s: StmtV, fuel: nat) -> Result<
    CompilerV,
    ErrorV,
>
    decreases fuel, 2int, 0int, 0int,
{
    match s {
        StmtV::Calling(c) => compile_calling_spec(cv, c, fuel),
        StmtV::Macro(m) => compile_macro_spec(cv, m, fuel),
    }
}

/// A macro invocation: a preprocess capability compiles the named source
/// units immediately; a deferred capability captures Metas and appends a
/// deferred call to the program.  An unknown name is an error.
pub open spec fn compile_macro_spec(cv: CompilerV, m: MacroV, fuel: nat) -> Result<
    CompilerV,
    ErrorV,
>
    decreases fuel, 1int, 0int, 1int,
{
    match macro_of_name(m.called.literal) {
        None => Err(ErrorV::UndefinedMacro { called: m.called }),
        Some(crate::macros::Macro::Preprocess(_)) => import_spec(cv, m.args, fuel),
        Some(crate::macros::Macro::Fn(d)) => Ok(
            CompilerV {
                commands: cv.commands.push(
                    EntryV::MacroCall(
                        MacroCallV { called: d, args: metas_spec(cv.args, cv.defines, m.args) },
                    ),
                ),
                ..cv
            },
        ),
    }
}

/// The preprocess capability: each named source unit's items are compiled
/// in order, against the registry of parsed units.
pub open spec fn import_spec(cv: CompilerV, names: Seq<IdentV>, fuel: nat) -> Result<
    CompilerV,
    ErrorV,
>
    decreases fuel, 0int, names.len(), 0int,
{
    if names.len() == 0 {
        Ok(cv)
    } else if fuel == 0 {
        Err(ErrorV::RecursionLimit { called: names[0] })
    } else if !cv.units.contains_key(names[0].literal) {
        Err(ErrorV::UnitNotFound { name: names[0] })
    } else {
        match compile_items_spec(cv, cv.units[names[0].literal], (fuel - 1) as nat) {
            Ok(cv2) => import_spec(cv2, names.drop_first(), fuel),
            Err(e) => Err(e),
        }
    }
}

/// A source unit's items, in order, threading the compiler state.
pub open spec fn compile_items_spec(cv: CompilerV, items: Seq<ItemV>, fuel: nat) -> Result<
    CompilerV,
    ErrorV,
>
    decreases fuel, 3int, items.len(), 1int,
{
    if items.len() == 0 {
        Ok(cv)
    } else {
        match compile_item_spec(cv, items[0], fuel) {
            Ok(cv2) => compile_items_spec(cv2, items.drop_first(), fuel),
            Err(e) => Err(e),
        }
    }
}

/// One top-level item of a source unit.
pub open spec fn compile_item_spec(cv: CompilerV, item: ItemV, fuel: nat) -> Result<
    CompilerV,
    ErrorV,
>
    decreases fuel, 2int, 0int, 1int,
{
    match item {
        ItemV::Define(d) => compile_define_spec(cv, d),
        ItemV::Function(f) => compile_function_spec(cv, f),
        ItemV::Calling(c) => compile_calling_spec(cv, c, fuel),
        ItemV::Macro(m) => compile_macro_spec(cv, m, fuel),
    }
}

fn calling_span(called: &Ident, args: &Vec<Ident>) -> (r: Span)
    ensures
        r == args_span(called@, idents_view(args@)),
{
    let ghost av = idents_view(args@);
    let n = args.len();
    if n == 0 {
        return called.span();
    }
    let mut acc = args[0].span();
    let mut i: usize = 1;
    while i < n
        invariant
            n == args@.len(),
            1 <= i <= n,
            av == idents_view(args@),
            span_fold(av.skip(i as int), acc) == span_fold(av.skip(1), av[0].location),
        decreases n - i,
    {
        proof {
            assert(av.skip(i as int).drop_first() =~= av.skip(i as int + 1));
            assert(av.skip(i as int)[0] == av[i as int]);
        }
        acc = acc.merge(args[i].span());
        i = i + 1;
    }
    proof {
        assert(av.skip(n as int) =~= Seq::<IdentV>::empty());
    }
    acc
}

impl Compiler {
    /// All four environment tables are well formed.
    pub closed spec fn wf(&self) -> bool {
        &&& self.defines.wf()
        &&& self.args.wf()
        &&& self.functions.wf()
        &&& self.units.wf()
    }

    /// A fresh compiler: empty environment, empty program.
    pub fn new() -> (r: Compiler)
        ensures
            r.wf(),
            r@.defines == Map::<Seq<char>, u16>::empty(),
            r@.args == Map::<Seq<char>, u16>::empty(),
            r@.functions == Map::<Seq<char>, FunctionV>::empty(),
            r@.units == Map::<Seq<char>, Seq<ItemV>>::empty(),
            r@.commands == Seq::<EntryV>::empty(),
    {
        let r = Compiler {
            defines: Table::new(),
            args: Table::new(),
            functions: Table::new(),
            units: Table::new(),
            commands: Vec::new(),
        };
        proof {
            assert(entries_view(r.commands@) =~= Seq::<EntryV>::empty());
        }
        r
    }

    /// Registers a parsed source unit under `name`, replacing any earlier
    /// unit of that name; preprocess imports compile it by name.
    pub fn add_source_unit(&mut self, name: String, items: Vec<Item>)
        requires
            old(self).wf(),
        ensures
            final(self).wf(),
            final(self)@ == (CompilerV {
                units: old(self)@.units.insert(name@, items_view(items@)),
                ..old(self)@
            }),
    {
        self.units.insert(name, Unit { items });
    }

    /// Resolves an identifier by the redirect rule: active argument
    /// bindings shadow defines, which shadow numeric literals.
    pub fn redirect(&self, value: &Ident) -> (r: Result<Value, CompileError>)
        requires
            self.wf(),
        ensures
            ({
                let s = redirect_spec(self@.args, self@.defines, value@);
                match s {
                    Ok(v) => r is Ok && r->Ok_0@ == v,
                    Err(e) => r is Err && r->Err_0@ == e,
                }
            }),
    {
        match self.args.get(value.literal()) {
            Some(v) => Ok(*v),
            None => match self.defines.get(value.literal()) {
                Some(v) => Ok(*v),
                None => match Value::parse_literal(value.literal().as_str()) {
                    Some(v) => Ok(v),
                    None => Err(CompileError::UnresolvedIdentifier { ident: value.duplicate() }),
                },
            },
        }
    }

    /// Compiles a define: the value identifier is resolved in the current
    /// environment and the name is bound to the result.
    pub fn compile_define(&mut self, define: Define) -> (r: Result<(), CompileError>)
        requires
            old(self).wf(),
        ensures
            final(self).wf(),
            ({
                let s = compile_define_spec(old(self)@, define@);
                match s {
                    Ok(cv) => r is Ok && final(self)@ == cv,
                    Err(e) => r is Err && r->Err_0@ == e && final(self)@ == old(self)@,
                }
            }),
    {
        let value = match self.redirect(&define.value) {
            Ok(v) => v,
            Err(e) => {
                return Err(e);
            },
        };
        self.defines.insert(define.name.literal().clone(), value);
        Ok(())
    }

    /// Compiles a function definition: fails on a duplicate name, carrying
    /// both definitions' names; otherwise stores the body unexpanded.
    pub fn compile_function(&mut self, function: Function) -> (r: Result<(), CompileError>)
        requires
            old(self).wf(),
        ensures
            final(self).wf(),
            ({
                let s = compile_function_spec(old(self)@, function@);
                match s {
                    Ok(cv) => r is Ok && final(self)@ == cv,
                    Err(e) => r is Err && r->Err_0@ == e && final(self)@ == old(self)@,
                }
            }),
    {
        let prior = match self.functions.get(function.name.literal()) {
            Some(exist) => Some(exist.name.duplicate()),
            None => None,
        };
        match prior {
            Some(original) => Err(CompileError::DuplicateFunction { name: function.name, original }),
            None => {
                let key = function.name.literal().clone();
                self.functions.insert(key, function);
                Ok(())
            },
        }
    }

    #[verifier::loop_isolation(false)]
    fn compile_calling_fuel(&mut self, calling: &Calling, fuel: u64) -> (r: Result<
        (),
        CompileError,
    >)
        requires
            old(self).wf(),
        ensures
            final(self).wf(),
            ({
                let s = compile_calling_spec(old(self)@, calling@, fuel as nat);
                match s {
                    Ok(cv) => r is Ok && final(self)@ == cv,
                    Err(e) => r is Err && r->Err_0@ == e,
                }
            }),
        decreases fuel, 1int, 0int, 0int,
    {
        let ghost cv0 = self@;
        let ghost cav = idents_view(calling.args@);
        let span = calling_span(&calling.called, &calling.args);
        match Op::from_mnemonic(calling.called.literal()) {
            Ok(op) => {
                if calling.args.len() != 2 {
                    return Err(
                        CompileError::ArityMismatch {
                            called: calling.called.duplicate(),
                            span,
                            expected: 2,
                            actual: calling.args.len(),
                        },
                    );
                }
                let a = match self.redirect(&calling.args[0]) {
                    Ok(v) => v,
                    Err(e) => {
                        return Err(e);
                    },
                };
                let b = match self.redirect(&calling.args[1]) {
                    Ok(v) => v,
                    Err(e) => {
                        return Err(e);
                    },
                };
                self.commands.push(Entry::Command(Command { op, a, b }));
                proof {
                    assert(entries_view(self.commands@) =~= cv0.commands.push(
                        EntryV::Command(Command { op, a, b }),
                    ));
                }
                Ok(())
            },
            Err(_) => {
                let function = match self.functions.get(calling.called.literal()) {
                    Some(f0) => f0.duplicate(),
                    None => {
                        return Err(
                            CompileError::UndefinedFunction {
                                called: calling.called.duplicate(),
                                span,
                            },
                        );
                    },
                };
                if function.args.len() != calling.args.len() {
                    return Err(
                        CompileError::ArityMismatch {
                            called: calling.called.duplicate(),
                            span,
                            expected: function.args.len(),
                            actual: calling.args.len(),
                        },
                    );
                }
                if fuel == 0 {
                    return Err(CompileError::RecursionLimit { called: calling.called.duplicate() });
                }
                let ghost f = function@;
                let mut conflicts: Vec<(String, Value)> = Vec::new();
                let n = function.args.len();
                let mut i: usize = 0;
                proof {
                    assert(f.args.skip(0) =~= f.args);
                    assert(cav.skip(0) =~= cav);
                    assert(pairs_view(conflicts@) =~= Seq::<(Seq<char>, u16)>::empty());
                }
                while i < n
                    invariant
                        self.wf(),
                        n == function.args@.len(),
                        n == calling.args@.len(),
                        f == function@,
                        cav == idents_view(calling.args@),
                        0 <= i <= n,
                        self@.defines == cv0.defines,
                        self@.functions == cv0.functions,
                        self@.units == cv0.units,
                        self@.commands == cv0.commands,
                        bind_formals_spec(cv0.args, cv0.defines, Seq::empty(), f.args, cav)
                            == bind_formals_spec(
                            self@.args,
                            cv0.defines,
                            pairs_view(conflicts@),
                            f.args.skip(i as int),
                            cav.skip(i as int),
                        ),
                    decreases n - i,
                {
                    proof {
                        assert(f.args.skip(i as int).drop_first() =~= f.args.skip(i as int + 1));
                        assert(cav.skip(i as int).drop_first() =~= cav.skip(i as int + 1));
                        assert(f.args.skip(i as int)[0] == f.args[i as int]);
                        assert(cav.skip(i as int)[0] == cav[i as int]);
                    }
                    let v = match self.redirect(&calling.args[i]) {
                        Ok(v) => v,
                        Err(e) => {
                            return Err(e);
                        },
                    };
                    let k = function.args[i].literal().clone();
                    let ghost conflicts_before = pairs_view(conflicts@);
                    match self.args.get(&k) {
                        Some(prior) => {
                            let p = *prior;
                            conflicts.push((k.clone(), p));
                            proof {
                                assert(pairs_view(conflicts@) =~= conflicts_before.push(
                                    (k@, p@),
                                ));
                            }
                        },
                        None => {},
                    }
                    self.args.insert(k, v);
                    i = i + 1;
                }
                proof {
                    assert(f.args.skip(n as int) =~= Seq::<IdentV>::empty());
                    assert(cav.skip(n as int) =~= Seq::<IdentV>::empty());
                }
                let ghost cvb = self@;
                let m = function.body.len();
                let mut j: usize = 0;
                proof {
                    assert(f.body.skip(0) =~= f.body);
                }
                while j < m
                    invariant
                        self.wf(),
                        m == function.body@.len(),
                        f == function@,
                        0 <= j <= m,
                        fuel >= 1,
                        compile_stmts_spec(cvb, f.body, (fuel - 1) as nat) == compile_stmts_spec(
                            self@,
                            f.body.skip(j as int),
                            (fuel - 1) as nat,
                        ),
                    decreases m - j,
                {
                    proof {
                        assert(f.body.skip(j as int).drop_first() =~= f.body.skip(j as int + 1));
                        assert(f.body.skip(j as int)[0] == f.body[j as int]);
                    }
                    match self.compile_stmt_fuel(&function.body[j], fuel - 1) {
                        Ok(_u) => {},
                        Err(e) => {
                            return Err(e);
                        },
                    }
                    j = j + 1;
                }
                proof {
                    assert(f.body.skip(m as int) =~= Seq::<StmtV>::empty());
                }
                let ghost cv2 = self@;
                let mut i2: usize = 0;
                proof {
                    assert(f.args.skip(0) =~= f.args);
                }
                while i2 < n
                    invariant
                        self.wf(),
                        n == function.args@.len(),
                        f == function@,
                        0 <= i2 <= n,
                        self@.defines == cv2.defines,
                        self@.functions == cv2.functions,
                        self@.units == cv2.units,
                        self@.commands == cv2.commands,
                        remove_keys(cv2.args, f.args) == remove_keys(
                            self@.args,
                            f.args.skip(i2 as int),
                        ),
                    decreases n - i2,
                {
                    proof {
                        assert(f.args.skip(i2 as int).drop_first() =~= f.args.skip(i2 as int + 1));
                        assert(f.args.skip(i2 as int)[0] == f.args[i2 as int]);
                    }
                    self.args.remove(function.args[i2].literal());
                    i2 = i2 + 1;
                }
                proof {
                    assert(f.args.skip(n as int) =~= Seq::<IdentV>::empty());
                }
                let ghost removed = self@.args;
                let ghost pv = pairs_view(conflicts@);
                let cn = conflicts.len();
                let mut ci: usize = 0;
                proof {
                    assert(pv.skip(0) =~= pv);
                }
                while ci < cn
                    invariant
                        self.wf(),
                        cn == conflicts@.len(),
                        pv == pairs_view(conflicts@),
                        0 <= ci <= cn,
                        self@.defines == cv2.defines,
                        self@.functions == cv2.functions,
                        self@.units == cv2.units,
                        self@.commands == cv2.commands,
                        replay(removed, pv) == replay(self@.args, pv.skip(ci as int)),
                    decreases cn - ci,
                {
                    proof {
                        assert(pv.skip(ci as int).drop_first() =~= pv.skip(ci as int + 1));
                        assert(pv.skip(ci as int)[0] == pv[ci as int]);
                    }
                    let key = conflicts[ci].0.clone();
                    let val = conflicts[ci].1;
                    self.args.insert(key, val);
                    ci = ci + 1;
                }
                proof {
                    assert(pv.skip(cn as int) =~= Seq::<(Seq<char>, u16)>::empty());
                }
                Ok(())
            },
        }
    }

    fn compile_stmt_fuel(&mut self, stmt: &Stmt, fuel: u64) -> (r: Result<(), CompileError>)
        requires
            old(self).wf(),
        ensures
            final(self).wf(),
            ({
                let s = compile_stmt_spec(old(self)@, stmt@, fuel as nat);
                match s {
                    Ok(cv) => r is Ok && final(self)@ == cv,
                    Err(e) => r is Err && r->Err_0@ == e,
                }
            }),
        decreases fuel, 2int, 0int, 0int,
    {
        match stmt {
            Stmt::Calling(c) => self.compile_calling_fuel(c, fuel),
            Stmt::Macro(m) => self.compile_macro_fuel(m, fuel),
        }
    }

    #[verifier::loop_isolation(false)]
    fn compile_macro_fuel(&mut self, mac: &Macro, fuel: u64) -> (r: Result<(), CompileError>)
        requires
            old(self).wf(),
        ensures
            final(self).wf(),
            ({
                let s = compile_macro_spec(old(self)@, mac@, fuel as nat);
                match s {
                    Ok(cv) => r is Ok && final(self)@ == cv,
                    Err(e) => r is Err && r->Err_0@ == e,
                }
            }),
        decreases fuel, 1int, 0int, 1int,
    {
        let ghost cv0 = self@;
        match lookup_macro(mac.called.literal()) {
            None => Err(CompileError::UndefinedMacro { called: mac.called.duplicate() }),
            Some(crate::macros::Macro::Preprocess(_p)) => self.import_units(&mac.args, fuel),
            Some(crate::macros::Macro::Fn(d)) => {
                let ghost mav = idents_view(mac.args@);
                let mut metas: Vec<Meta> = Vec::new();
                let n = mac.args.len();
                let mut i: usize = 0;
                while i < n
                    invariant
                        self.wf(),
                        self@ == cv0,
                        n == mac.args@.len(),
                        mav == idents_view(mac.args@),
                        0 <= i <= n,
                        metas@.len() == i,
                        forall|j: int|
                            0 <= j < i ==> metas@[j]@ == metas_spec(cv0.args, cv0.defines, mav)[j],
                    decreases n - i,
                {
                    let val = match self.redirect(&mac.args[i]) {
                        Ok(v) => Some(v),
                        Err(_) => None,
                    };
                    metas.push(Meta { id: mac.args[i].duplicate(), val });
                    i = i + 1;
                }
                self.commands.push(
                    Entry::MacroCall(MacroCall { called: d, args: metas }),
                );
                proof {
                    assert(metas_view(self.commands@.last()->MacroCall_0.args@) =~= metas_spec(
                        cv0.args,
                        cv0.defines,
                        mav,
                    ));
                    assert(entries_view(self.commands@) =~= cv0.commands.push(
                        EntryV::MacroCall(
                            MacroCallV {
                                called: d,
                                args: metas_spec(cv0.args, cv0.defines, mav),
                            },
                        ),
                    ));
                }
                Ok(())
            },
        }
    }

    #[verifier::loop_isolation(false)]
    fn import_units(&mut self, names: &Vec<Ident>, fuel: u64) -> (r: Result<(), CompileError>)
        requires
            old(self).wf(),
        ensures
            final(self).wf(),
            ({
                let s = import_spec(old(self)@, idents_view(names@), fuel as nat);
                match s {
                    Ok(cv) => r is Ok && final(self)@ == cv,
                    Err(e) => r is Err && r->Err_0@ == e,
                }
            }),
        decreases fuel, 0int, 0int, 0int,
    {
        let ghost cv0 = self@;
        let ghost nv = idents_view(names@);
        let n = names.len();
        let mut i: usize = 0;
        proof {
            assert(nv.skip(0) =~= nv);
        }
        while i < n
            invariant
                self.wf(),
                n == names@.len(),
                nv == idents_view(names@),
                0 <= i <= n,
                import_spec(cv0, nv, fuel as nat) == import_spec(
                    self@,
                    nv.skip(i as int),
                    fuel as nat,
                ),
            decreases n - i,
        {
            proof {
                assert(nv.skip(i as int).drop_first() =~= nv.skip(i as int + 1));
                assert(nv.skip(i as int)[0] == nv[i as int]);
            }
            if fuel == 0 {
                return Err(CompileError::RecursionLimit { called: names[i].duplicate() });
            }
            let items = match self.units.get(names[i].literal()) {
                Some(u) => duplicate_unit_items(u),
                None => {
                    return Err(CompileError::UnitNotFound { name: names[i].duplicate() });
                },
            };
            match self.compile_unit_items(&items, fuel - 1) {
                Ok(_u) => {},
                Err(e) => {
                    return Err(e);
                },
            }
            i = i + 1;
        }
        proof {
            assert(nv.skip(n as int) =~= Seq::<IdentV>::empty());
        }
        Ok(())
    }

    #[verifier::loop_isolation(false)]
    fn compile_unit_items(&mut self, items: &Vec<Item>, fuel: u64) -> (r: Result<
        (),
        CompileError,
    >)
        requires
            old(self).wf(),
        ensures
            final(self).wf(),
            ({
                let s = compile_items_spec(old(self)@, items_view(items@), fuel as nat);
                match s {
                    Ok(cv) => r is Ok && final(self)@ == cv,
                    Err(e) => r is Err && r->Err_0@ == e,
                }
            }),
        decreases fuel, 3int, 0int, 0int,
    {
        let ghost cv0 = self@;
        let ghost iv = items_view(items@);
        let n = items.len();
        let mut i: usize = 0;
        proof {
            assert(iv.skip(0) =~= iv);
        }
        while i < n
            invariant
                self.wf(),
                n == items@.len(),
                iv == items_view(items@),
                0 <= i <= n,
                compile_items_spec(cv0, iv, fuel as nat) == compile_items_spec(
                    self@,
                    iv.skip(i as int),
                    fuel as nat,
                ),
            decreases n - i,
        {
            proof {
                assert(iv.skip(i as int).drop_first() =~= iv.skip(i as int + 1));
                assert(iv.skip(i as int)[0] == iv[i as int]);
            }
            match self.compile_item_fuel(&items[i], fuel) {
                Ok(_u) => {},
                Err(e) => {
                    return Err(e);
                },
            }
            i = i + 1;
        }
        proof {
            assert(iv.skip(n as int) =~= Seq::<ItemV>::empty());
        }
        Ok(())
    }

    fn compile_item_fuel(&mut self, item: &Item, fuel: u64) -> (r: Result<(), CompileError>)
        requires
            old(self).wf(),
        ensures
            final(self).wf(),
            ({
                let s = compile_item_spec(old(self)@, item@, fuel as nat);
                match s {
                    Ok(cv) => r is Ok && final(self)@ == cv,
                    Err(e) => r is Err && r->Err_0@ == e,
                }
            }),
        decreases fuel, 2int, 0int, 1int,
    {
        match item {
            Item::Define(d) => self.compile_define(
                Define { name: d.name.duplicate(), value: d.value.duplicate() },
            ),
            Item::Function(f) => self.compile_function(f.duplicate()),
            Item::Calling(c) => self.compile_calling_fuel(c, fuel),
            Item::Macro(m) => self.compile_macro_fuel(m, fuel),
        }
    }

    /// Compiles a call: a built-in mnemonic appends one command; a
    /// registered function is inlined at the call site with the caller's
    /// bindings saved and restored; anything else is an error.
    pub fn compile_calling(&mut self, calling: &Calling) -> (r: Result<(), CompileError>)
        requires
            old(self).wf(),
        ensures
            final(self).wf(),
            ({
                let s = compile_calling_spec(old(self)@, calling@, INLINE_FUEL as nat);
                match s {
                    Ok(cv) => r is Ok && final(self)@ == cv,
                    Err(e) => r is Err && r->Err_0@ == e,
                }
            }),
    {
        self.compile_calling_fuel(calling, INLINE_FUEL)
    }

    /// Compiles a macro invocation against the fixed registry.
    pub fn compile_macro(&mut self, mac: &Macro) -> (r: Result<(), CompileError>)
        requires
            old(self).wf(),
        ensures
            final(self).wf(),
            ({
                let s = compile_macro_spec(old(self)@, mac@, INLINE_FUEL as nat);
                match s {
                    Ok(cv) => r is Ok && final(self)@ == cv,
                    Err(e) => r is Err && r->Err_0@ == e,
                }
            }),
    {
        self.compile_macro_fuel(mac, INLINE_FUEL)
    }

    /// Compiles one statement of a function body.
    pub fn compile_stmt(&mut self, stmt: &Stmt) -> (r: Result<(), CompileError>)
        requires
            old(self).wf(),
        ensures
            final(self).wf(),
            ({
                let s = compile_stmt_spec(old(self)@, stmt@, INLINE_FUEL as nat);
                match s {
                    Ok(cv) => r is Ok && final(self)@ == cv,
                    Err(e) => r is Err && r->Err_0@ == e,
                }
            }),
    {
        self.compile_stmt_fuel(stmt, INLINE_FUEL)
    }

    /// Compiles a whole source unit's items, in order, stopping at the
    /// first error.
    pub fn compile_items(&mut self, items: &Vec<Item>) -> (r: Result<(), CompileError>)
        requires
            old(self).wf(),
        ensures
            final(self).wf(),
            ({
                let s = compile_items_spec(old(self)@, items_view(items@), INLINE_FUEL as nat);
                match s {
                    Ok(cv) => r is Ok && final(self)@ == cv,
                    Err(e) => r is Err && r->Err_0@ == e,
                }
            }),
    {
        self.compile_unit_items(items, INLINE_FUEL)
    }

    /// Compiles one top-level item.
    pub fn compile_item(&mut self, item: &Item) -> (r: Result<(), CompileError>)
        requires
            old(self).wf(),
        ensures
            final(self).wf(),
            ({
                let s = compile_item_spec(old(self)@, item@, INLINE_FUEL as nat);
                match s {
                    Ok(cv) => r is Ok && final(self)@ == cv,
                    Err(e) => r is Err && r->Err_0@ == e,
                }
            }),
    {
        self.compile_item_fuel(item, INLINE_FUEL)
    }
}

/// A deep copy of a registered unit's items.
fn duplicate_unit_items(u: &Unit) -> (r: Vec<Item>)
    ensures
        items_view(r@) == u@,
{
    crate::ast::duplicate_items(&u.items)
}

/// The concrete commands of a program, in order, macro calls left out.
pub open spec fn command_entries(s: Seq<EntryV>) -> Seq<Command>
    decreases s.len(),
{
    if s.len() == 0 {
        Seq::empty()
    } else {
        match s[0] {
            EntryV::Command(c) => seq![c] + command_entries(s.drop_first()),
            EntryV::MacroCall(_) => command_entries(s.drop_first()),
        }
    }
}

impl Compiler {
    /// The concrete commands of the compiled program, in emission order.
    #[verifier::loop_isolation(false)]
    pub fn commands(&self) -> (r: Vec<Command>)
        ensures
            r@ == command_entries(self@.commands),
    {
        let ghost ev = self@.commands;
        let mut r: Vec<Command> = Vec::new();
        let n = self.commands.len();
        let mut i: usize = 0;
        proof {
            assert(ev.skip(0) =~= ev);
        }
        while i < n
            invariant
                0 <= i <= n,
                command_entries(ev) == r@ + command_entries(ev.skip(i as int)),
            decreases n - i,
        {
            proof {
                assert(ev.skip(i as int).drop_first() =~= ev.skip(i as int + 1));
                assert(ev.skip(i as int)[0] == ev[i as int]);
            }
            match &self.commands[i] {
                Entry::Command(c) => {
                    let ghost r0 = r@;
                    r.push(*c);
                    proof {
                        assert(r0 + (seq![*c] + command_entries(ev.skip(i as int + 1))) =~= r@
                            + command_entries(ev.skip(i as int + 1)));
                    }
                },
                Entry::MacroCall(_) => {},
            }
            i = i + 1;
        }
        proof {
            assert(ev.skip(n as int) =~= Seq::<EntryV>::empty());
            assert(r@ + Seq::<Command>::empty() =~= r@);
        }
        r
    }

    /// Loads the compiled program at the entry address, initializes the
    /// program counter cell, and drives the fetch-decode-execute loop for
    /// at most `steps` iterations, firing due macro calls before the
    /// instruction at their address.  Returns how the run ended and the
    /// macro output.  When the program does not fit, `TooLarge` is
    /// reported and memory may hold a partial load.
    #[verifier::loop_isolation(false)]
    #[verifier::rlimit(100)]
    pub fn run(&self, entry: Value, memory: &mut Memory, steps: u64) -> (r: RunReport)
        requires
            old(memory).wf(),
        ensures
            final(memory).wf(),
            ({
                match load_spec(old(memory)@, self@.commands, entry@) {
                    None => r.outcome == RunOutcome::TooLarge && r.output@.len() == 0,
                    Some(lm) => {
                        let m2 = write16(lm.0, 0, entry@);
                        let rr = run_spec(m2, lm.1, steps as nat);
                        &&& final(memory)@ == rr.mem
                        &&& r.outcome == rr.outcome
                        &&& lines_view(r.output@) == rr.lines
                    },
                }
            }),
    {
        let ghost mem0 = memory@;
        let ghost ev = self@.commands;
        let mut macros: Vec<(u16, MacroCall)> = Vec::new();
        let mut at: u16 = entry.0;
        let n = self.commands.len();
        let mut i: usize = 0;
        proof {
            assert(ev.skip(0) =~= ev);
            assert(placements_view(macros@) =~= Seq::<(u16, MacroCallV)>::empty());
        }
        while i < n
            invariant
                memory.wf(),
                0 <= i <= n,
                ({
                    match load_spec(memory@, ev.skip(i as int), at) {
                        Some(lm) => load_spec(mem0, ev, entry@) == Some(
                            (lm.0, placements_view(macros@) + lm.1),
                        ),
                        None => load_spec(mem0, ev, entry@) is None,
                    }
                }),
            decreases n - i,
        {
            proof {
                assert(ev.skip(i as int).drop_first() =~= ev.skip(i as int + 1));
                assert(ev.skip(i as int)[0] == ev[i as int]);
            }
            match &self.commands[i] {
                Entry::Command(c) => {
                    if at as usize + 5 > u16::MAX as usize {
                        return RunReport { outcome: RunOutcome::TooLarge, output: Vec::new() };
                    }
                    let bytes = c.encode();
                    memory.store(at as usize, &bytes);
                    at = at + 5;
                },
                Entry::MacroCall(m) => {
                    let ghost p0 = placements_view(macros@);
                    let ghost rest = load_spec(memory@, ev.skip(i as int + 1), at);
                    macros.push((at, m.duplicate()));
                    proof {
                        assert(placements_view(macros@) =~= p0.push((at, m@)));
                        if rest is Some {
                            let rp = rest->0;
                            assert((p0 + (seq![(at, m@)] + rp.1)) =~= (placements_view(macros@)
                                + rp.1));
                        }
                    }
                },
            }
            i = i + 1;
        }
        proof {
            assert(ev.skip(n as int) =~= Seq::<EntryV>::empty());
            assert(placements_view(macros@) + Seq::<(u16, MacroCallV)>::empty() =~= placements_view(
                macros@,
            ));
        }
        memory.write(Value(0), entry);
        let ghost mac_v = placements_view(macros@);
        let ghost m2 = memory@;
        let mut out: Vec<String> = Vec::new();
        let mut t: u64 = 0;
        proof {
            assert(lines_view(out@) =~= Seq::<Seq<char>>::empty());
            assert(Seq::<Seq<char>>::empty() + run_spec(m2, mac_v, steps as nat).lines =~= run_spec(
                m2,
                mac_v,
                steps as nat,
            ).lines);
        }
        while t < steps
            invariant
                memory.wf(),
                0 <= t <= steps,
                ({
                    let rr_total = run_spec(m2, mac_v, steps as nat);
                    let rr_cur = run_spec(memory@, mac_v, (steps - t) as nat);
                    &&& rr_total.mem == rr_cur.mem
                    &&& rr_total.outcome == rr_cur.outcome
                    &&& rr_total.lines == lines_view(out@) + rr_cur.lines
                }),
            decreases steps - t,
        {
            let ghost mcur = memory@;
            let pc = memory.read(Value(0));
            let mut fired: Vec<String> = Vec::new();
            let kn = macros.len();
            let mut k: usize = 0;
            proof {
                assert(mac_v.skip(0) =~= mac_v);
                assert(lines_view(fired@) =~= Seq::<Seq<char>>::empty());
                assert(Seq::<Seq<char>>::empty() + fire_spec(mac_v, pc@, mcur) =~= fire_spec(
                    mac_v,
                    pc@,
                    mcur,
                ));
            }
            while k < kn
                invariant
                    memory.wf(),
                    memory@ == mcur,
                    0 <= k <= kn,
                    kn == macros@.len(),
                    lines_view(fired@) + fire_spec(mac_v.skip(k as int), pc@, mcur) == fire_spec(
                        mac_v,
                        pc@,
                        mcur,
                    ),
                decreases kn - k,
            {
                proof {
                    assert(mac_v.skip(k as int).drop_first() =~= mac_v.skip(k as int + 1));
                    assert(mac_v.skip(k as int)[0] == mac_v[k as int]);
                }
                if macros[k].0 == pc.0 {
                    let ghost fired0 = fired@;
                    let mut lines = macros[k].1.call(memory);
                    let ghost got = lines@;
                    fired.append(&mut lines);
                    proof {
                        assert(fired@ =~= fired0 + got);
                        assert(lines_view(fired0 + got) =~= lines_view(fired0) + lines_view(got));
                        assert((lines_view(fired0) + lines_view(got)) + fire_spec(
                            mac_v.skip(k as int + 1),
                            pc@,
                            mcur,
                        ) =~= lines_view(fired0) + (lines_view(got) + fire_spec(
                            mac_v.skip(k as int + 1),
                            pc@,
                            mcur,
                        )));
                    }
                } else {
                    proof {
                        assert(Seq::<Seq<char>>::empty() + fire_spec(
                            mac_v.skip(k as int + 1),
                            pc@,
                            mcur,
                        ) =~= fire_spec(mac_v.skip(k as int + 1), pc@, mcur));
                    }
                }
                k = k + 1;
            }
            proof {
                assert(mac_v.skip(kn as int) =~= Seq::<(u16, MacroCallV)>::empty());
                assert(lines_view(fired@) + Seq::<Seq<char>>::empty() =~= lines_view(fired@));
            }
            let ghost out0 = out@;
            out.append(&mut fired);
            proof {
                assert(lines_view(out@) =~= lines_view(out0) + fire_spec(mac_v, pc@, mcur));
            }
            match memory.eval(Value(0)) {
                Ok(_u) => {},
                Err(f) => {
                    let outcome = match f {
                        Fault::InvalidOpcode => RunOutcome::InvalidOpcode,
                        Fault::UnimplementedOpcode => RunOutcome::UnimplementedOpcode,
                        Fault::OutOfBounds => RunOutcome::OutOfBounds,
                    };
                    return RunReport { outcome, output: out };
                },
            }
            let pc3 = memory.read(Value(0));
            match pc3.next_command() {
                Some(next) => {
                    memory.write(Value(0), next);
                },
                None => {
                    return RunReport { outcome: RunOutcome::PcOverflow, output: out };
                },
            }
            t = t + 1;
        }
        RunReport { outcome: RunOutcome::StepLimit, output: out }
    }
}

} // verus!
