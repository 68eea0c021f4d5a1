//! The library's laws, stated and proved against the compile and run
//! models.

use vstd::map::*;
use vstd::prelude::*;

use crate::ast::{CallingV, FunctionV, IdentV, StmtV};
use crate::command::eval_spec;
use crate::compiler::{
    args_span, bind_formals_spec, compile_calling_spec, compile_stmt_spec, compile_stmts_spec,
    redirect_spec, remove_keys, replay, CompilerV,
};
use crate::error::ErrorV;
use crate::macros::{macro_lines, macro_of_name, MacroCallV};
use crate::memory::{read16, MEM_SIZE};
use crate::op::op_of_mnemonic;
use crate::value::parse_value;
use crate::vm::{step_spec, RunOutcome};

verus! {

/// Redirect resolution: an identifier bound in the active args map
/// resolves to that binding even when the same name also stands in the
/// defines; without an args binding it falls through to the defines, and
/// only then to the numeric literal parse.
pub proof fn lemma_redirect_priority(
    args: Map<Seq<char>, u16>,
    defines: Map<Seq<char>, u16>,
    id: IdentV,
)
    ensures
        args.contains_key(id.literal) ==> redirect_spec(args, defines, id) == Ok::<u16, ErrorV>(
            args[id.literal],
        ),
        !args.contains_key(id.literal) && defines.contains_key(id.literal) ==> redirect_spec(
            args,
            defines,
            id,
        ) == Ok::<u16, ErrorV>(defines[id.literal]),
        !args.contains_key(id.literal) && !defines.contains_key(id.literal) && parse_value(
            id.literal,
        ) is Some ==> redirect_spec(args, defines, id) == Ok::<u16, ErrorV>(
            parse_value(id.literal)->0,
        ),
        !args.contains_key(id.literal) && !defines.contains_key(id.literal) && parse_value(
            id.literal,
        ) is None ==> redirect_spec(args, defines, id) == Err::<u16, ErrorV>(
            ErrorV::UnresolvedIdentifier { ident: id },
        ),
{
}

/// Arity enforcement: a built-in mnemonic call with other than two
/// actuals, and a function call whose actual count differs from its
/// formal count, compile to exactly an `ArityMismatch` error.
pub proof fn lemma_arity_mismatch(cv: CompilerV, c: CallingV, fuel: nat)
    ensures
        op_of_mnemonic(c.called.literal) is Some && c.args.len() != 2 ==> compile_calling_spec(
            cv,
            c,
            fuel,
        ) == Err::<CompilerV, ErrorV>(
            ErrorV::ArityMismatch {
                called: c.called,
                span: args_span(c.called, c.args),
                expected: 2,
                actual: c.args.len() as int,
            },
        ),
        op_of_mnemonic(c.called.literal) is None && cv.functions.contains_key(c.called.literal)
            && cv.functions[c.called.literal].args.len() != c.args.len() ==> compile_calling_spec(
            cv,
            c,
            fuel,
        ) == Err::<CompilerV, ErrorV>(
            ErrorV::ArityMismatch {
                called: c.called,
                span: args_span(c.called, c.args),
                expected: cv.functions[c.called.literal].args.len() as int,
                actual: c.args.len() as int,
            },
        ),
{
}

/// Program counter arithmetic: a loop iteration that does not halt leaves
/// the counter cell advanced by exactly five from where the executed
/// command left it; a fetch past the end of the buffer halts with
/// `OutOfBounds`, and an advance that would leave the 16-bit range halts
/// with `PcOverflow` instead of wrapping.
pub proof fn lemma_pc_advance(mem: Seq<u8>, macros: Seq<(u16, MacroCallV)>)
    requires
        mem.len() == MEM_SIZE,
    ensures
        read16(mem, 0) + 5 > MEM_SIZE ==> step_spec(mem, macros).halt == Some(
            RunOutcome::OutOfBounds,
        ),
        eval_spec(mem, 0) is Ok && read16(eval_spec(mem, 0)->Ok_0, 0) + 5 > u16::MAX
            ==> step_spec(mem, macros).halt == Some(RunOutcome::PcOverflow),
        step_spec(mem, macros).halt is None ==> {
            let after = eval_spec(mem, 0)->Ok_0;
            read16(step_spec(mem, macros).mem, 0) == read16(after, 0) + 5
        },
{
    if eval_spec(mem, 0) is Ok {
        let after = eval_spec(mem, 0)->Ok_0;
        let pc3 = read16(after, 0);
        if pc3 + 5 <= u16::MAX {
            let advanced = crate::memory::write16(after, 0, (pc3 + 5) as u16);
            assert(read16(advanced, 0) == pc3 + 5) by {
                assert(advanced[0] == ((pc3 + 5) as u16) % 256);
                assert(advanced[1] == ((pc3 + 5) as u16) / 256);
            }
        }
    }
}

/// Macro firing: an iteration's output is exactly the output of the
/// calls bound at the current program counter, in registration order;
/// with a single bound call, it fires exactly once when the counter sits
/// at its address and not at all otherwise — on every visit, however
/// control flow got there.
pub proof fn lemma_macro_fires_once(a: u16, mc: MacroCallV, mem: Seq<u8>)
    ensures
        step_spec(mem, seq![(a, mc)]).lines == if read16(mem, 0) == a {
            macro_lines(mc.args, mem)
        } else {
            Seq::<Seq<char>>::empty()
        },
{
    let macros: Seq<(u16, MacroCallV)> = seq![(a, mc)];
    let pc = read16(mem, 0);
    assert(macros.len() == 1);
    assert(macros[0] == (a, mc));
    assert(macros.drop_first() =~= Seq::<(u16, MacroCallV)>::empty());
    assert(crate::vm::fire_spec(macros.drop_first(), pc, mem) == Seq::<Seq<char>>::empty());
    assert(step_spec(mem, macros).lines == crate::vm::fire_spec(macros, pc, mem));
    if pc == a {
        assert(macro_lines(mc.args, mem) + Seq::<Seq<char>>::empty() =~= macro_lines(
            mc.args,
            mem,
        ));
    } else {
        assert(Seq::<Seq<char>>::empty() + Seq::<Seq<char>>::empty() =~= Seq::<
            Seq<char>,
        >::empty());
    }
}

/// The literal texts of a formal list, in order.
pub open spec fn lit_seq(formals: Seq<IdentV>) -> Seq<Seq<char>> {
    formals.map_values(|f: IdentV| f.literal)
}

/// The value carried by the latest conflict entry for key `k`, if any.
pub open spec fn last_in(cs: Seq<(Seq<char>, u16)>, k: Seq<char>) -> Option<u16>
    decreases cs.len(),
{
    if cs.len() == 0 {
        None
    } else {
        match last_in(cs.drop_first(), k) {
            Some(v) => Some(v),
            None => if cs[0].0 == k {
                Some(cs[0].1)
            } else {
                None
            },
        }
    }
}

proof fn lemma_contains_head<A>(s: Seq<A>, k: A)
    requires
        s.len() > 0,
    ensures
        s.contains(k) == (s[0] == k || s.drop_first().contains(k)),
{
    if s.contains(k) {
        let i = choose|i: int| 0 <= i < s.len() && s[i] == k;
        if i > 0 {
            assert(s.drop_first()[i - 1] == k);
        }
    }
    if s.drop_first().contains(k) {
        let i = choose|i: int| 0 <= i < s.drop_first().len() && s.drop_first()[i] == k;
        assert(s[i + 1] == k);
    }
}

proof fn lemma_last_in_push(cs: Seq<(Seq<char>, u16)>, p: (Seq<char>, u16), k: Seq<char>)
    ensures
        last_in(cs.push(p), k) == (if p.0 == k {
            Some(p.1)
        } else {
            last_in(cs, k)
        }),
    decreases cs.len(),
{
    if cs.len() == 0 {
        assert(cs.push(p).drop_first() =~= Seq::<(Seq<char>, u16)>::empty());
        assert(cs.push(p)[0] == p);
    } else {
        assert(cs.push(p).drop_first() =~= cs.drop_first().push(p));
        assert(cs.push(p)[0] == cs[0]);
        lemma_last_in_push(cs.drop_first(), p, k);
    }
}

proof fn lemma_replay_characterize(m: Map<Seq<char>, u16>, cs: Seq<(Seq<char>, u16)>, k: Seq<char>)
    ensures
        replay(m, cs).contains_key(k) == (m.contains_key(k) || last_in(cs, k) is Some),
        replay(m, cs).contains_key(k) ==> replay(m, cs)[k] == (match last_in(cs, k) {
            Some(v) => v,
            None => m[k],
        }),
    decreases cs.len(),
{
    if cs.len() > 0 {
        lemma_replay_characterize(m.insert(cs[0].0, cs[0].1), cs.drop_first(), k);
    }
}

proof fn lemma_remove_keys_characterize(
    m: Map<Seq<char>, u16>,
    formals: Seq<IdentV>,
    k: Seq<char>,
)
    ensures
        remove_keys(m, formals).contains_key(k) == (m.contains_key(k) && !lit_seq(
            formals,
        ).contains(k)),
        remove_keys(m, formals).contains_key(k) ==> remove_keys(m, formals)[k] == m[k],
    decreases formals.len(),
{
    if formals.len() > 0 {
        lemma_remove_keys_characterize(m.remove(formals[0].literal), formals.drop_first(), k);
        assert(lit_seq(formals).drop_first() =~= lit_seq(formals.drop_first()));
        lemma_contains_head(lit_seq(formals), k);
        assert(lit_seq(formals)[0] == formals[0].literal);
    }
}

proof fn lemma_bind_characterize(
    args: Map<Seq<char>, u16>,
    defines: Map<Seq<char>, u16>,
    conflicts: Seq<(Seq<char>, u16)>,
    formals: Seq<IdentV>,
    actuals: Seq<IdentV>,
)
    requires
        bind_formals_spec(args, defines, conflicts, formals, actuals) is Ok,
        forall|i: int, j: int|
            0 <= i < j < formals.len() ==> formals[i].literal != formals[j].literal,
    ensures
        ({
            let p = bind_formals_spec(args, defines, conflicts, formals, actuals)->Ok_0;
            &&& forall|k: Seq<char>|
                !lit_seq(formals).contains(k) ==> {
                    &&& p.0.contains_key(k) == args.contains_key(k)
                    &&& (args.contains_key(k) ==> p.0[k] == args[k])
                    &&& last_in(p.1, k) == last_in(conflicts, k)
                }
            &&& forall|k: Seq<char>|
                #[trigger] lit_seq(formals).contains(k) ==> last_in(p.1, k) == (
                if args.contains_key(k) {
                    Some(args[k])
                } else {
                    last_in(conflicts, k)
                })
        }),
    decreases formals.len(),
{
    if formals.len() > 0 {
        let p = bind_formals_spec(args, defines, conflicts, formals, actuals)->Ok_0;
        let k0 = formals[0].literal;
        let v = redirect_spec(args, defines, actuals[0])->Ok_0;
        let c2 = if args.contains_key(k0) {
            conflicts.push((k0, args[k0]))
        } else {
            conflicts
        };
        let args2 = args.insert(k0, v);
        let rest = formals.drop_first();
        let arest = actuals.drop_first();
        lemma_bind_characterize(args2, defines, c2, rest, arest);
        assert(lit_seq(formals).drop_first() =~= lit_seq(rest));
        assert(lit_seq(formals)[0] == k0);
        assert(!lit_seq(rest).contains(k0)) by {
            if lit_seq(rest).contains(k0) {
                let i = choose|i: int| 0 <= i < lit_seq(rest).len() && lit_seq(rest)[i] == k0;
                assert(formals[i + 1].literal == k0);
            }
        }
        assert forall|k: Seq<char>| !lit_seq(formals).contains(k) implies {
            &&& p.0.contains_key(k) == args.contains_key(k)
            &&& (args.contains_key(k) ==> p.0[k] == args[k])
            &&& last_in(p.1, k) == last_in(conflicts, k)
        } by {
            lemma_contains_head(lit_seq(formals), k);
            assert(!lit_seq(rest).contains(k));
            assert(k != k0);
            if args.contains_key(k0) {
                lemma_last_in_push(conflicts, (k0, args[k0]), k);
            }
        }
        assert forall|k: Seq<char>| #[trigger] lit_seq(formals).contains(k) implies last_in(
            p.1,
            k,
        ) == (if args.contains_key(k) {
            Some(args[k])
        } else {
            last_in(conflicts, k)
        }) by {
            lemma_contains_head(lit_seq(formals), k);
            if k == k0 {
                if args.contains_key(k0) {
                    lemma_last_in_push(conflicts, (k0, args[k0]), k0);
                }
            } else {
                assert(lit_seq(rest).contains(k));
                if args.contains_key(k0) {
                    lemma_last_in_push(conflicts, (k0, args[k0]), k);
                }
            }
        }
    }
}

/// A statement lies in the scoped fragment when it does not invoke a
/// preprocess macro, which could register new functions mid-call.
pub open spec fn stmt_scoped(s: StmtV) -> bool {
    match s {
        StmtV::Calling(_) => true,
        StmtV::Macro(m) => match macro_of_name(m.called.literal) {
            Some(crate::macros::Macro::Preprocess(_)) => false,
            _ => true,
        },
    }
}

/// A function is scoped when its formal names are pairwise distinct and
/// its body stays in the scoped fragment.
pub open spec fn function_scoped(f: FunctionV) -> bool {
    &&& forall|i: int, j: int| 0 <= i < j < f.args.len() ==> f.args[i].literal != f.args[j].literal
    &&& forall|i: int| 0 <= i < f.body.len() ==> stmt_scoped(#[trigger] f.body[i])
}

/// Every registered function is scoped.
pub open spec fn registry_scoped(cv: CompilerV) -> bool {
    forall|k: Seq<char>|
        #[trigger] cv.functions.contains_key(k) ==> function_scoped(cv.functions[k])
}

/// The two compiler states agree on the whole symbol environment.
pub open spec fn same_env(a: CompilerV, b: CompilerV) -> bool {
    &&& a.args == b.args
    &&& a.defines == b.defines
    &&& a.functions == b.functions
    &&& a.units == b.units
}

/// Scoping save/restore: under a scoped registry, a call that compiles
/// successfully leaves the argument bindings — and the rest of the
/// environment — exactly as they were, whatever the inlining depth; an
/// outer binding shadowed by a formal is reinstated when the call
/// finishes compiling.  Only the emitted program grows.
pub proof fn lemma_scoping_save_restore(cv: CompilerV, c: CallingV, fuel: nat)
    requires
        registry_scoped(cv),
        compile_calling_spec(cv, c, fuel) is Ok,
    ensures
        same_env(compile_calling_spec(cv, c, fuel)->Ok_0, cv),
    decreases fuel, 1int, 0int, 0int,
{
    match op_of_mnemonic(c.called.literal) {
        Some(_) => {},
        None => {
            assert(cv.functions.contains_key(c.called.literal));
            let f = cv.functions[c.called.literal];
            assert(function_scoped(f));
            let b = bind_formals_spec(cv.args, cv.defines, Seq::empty(), f.args, c.args);
            let p = b->Ok_0;
            let cvb = CompilerV { args: p.0, ..cv };
            lemma_stmts_scoped(cvb, f.body, (fuel - 1) as nat);
            let cv2 = compile_stmts_spec(cvb, f.body, (fuel - 1) as nat)->Ok_0;
            lemma_bind_characterize(cv.args, cv.defines, Seq::empty(), f.args, c.args);
            assert_maps_equal!(replay(remove_keys(cv2.args, f.args), p.1), cv.args, k => {
                lemma_replay_characterize(remove_keys(cv2.args, f.args), p.1, k);
                lemma_remove_keys_characterize(cv2.args, f.args, k);
                // The bind characterization splits on whether `k` names a
                // formal; mention the split so both cases instantiate.
                if lit_seq(f.args).contains(k) {
                } else {
                }
            });
        },
    }
}

proof fn lemma_stmts_scoped(cv: CompilerV, stmts: Seq<StmtV>, fuel: nat)
    requires
        registry_scoped(cv),
        forall|i: int| 0 <= i < stmts.len() ==> stmt_scoped(#[trigger] stmts[i]),
        compile_stmts_spec(cv, stmts, fuel) is Ok,
    ensures
        same_env(compile_stmts_spec(cv, stmts, fuel)->Ok_0, cv),
    decreases fuel, 3int, stmts.len(), 0int,
{
    if stmts.len() > 0 {
        lemma_stmt_scoped(cv, stmts[0], fuel);
        let cv2 = compile_stmt_spec(cv, stmts[0], fuel)->Ok_0;
        assert(forall|i: int|
            0 <= i < stmts.drop_first().len() ==> stmt_scoped(#[trigger] stmts.drop_first()[i]));
        lemma_stmts_scoped(cv2, stmts.drop_first(), fuel);
    }
}

proof fn lemma_stmt_scoped(cv: CompilerV, s: StmtV, fuel: nat)
    requires
        registry_scoped(cv),
        stmt_scoped(s),
        compile_stmt_spec(cv, s, fuel) is Ok,
    ensures
        same_env(compile_stmt_spec(cv, s, fuel)->Ok_0, cv),
    decreases fuel, 2int, 0int, 0int,
{
    match s {
        StmtV::Calling(c) => {
            lemma_scoping_save_restore(cv, c, fuel);
        },
        StmtV::Macro(_) => {},
    }
}

} // verus!
