//! Tests for the compiler: the redirect rule, inlining with scoped
//! save/restore, arity enforcement, macros, and end-to-end runs.

use mcvm::ast::{Calling, Define, Function, Ident, Item, Macro, Span, Stmt};
use mcvm::command::Command;
use mcvm::compiler::Compiler;
use mcvm::error::CompileError;
use mcvm::macros::{Deferred, MacroCall, Meta};
use mcvm::memory::Memory;
use mcvm::op::Op;
use mcvm::value::Value;
use mcvm::vm::RunOutcome;

fn ident(text: &str) -> Ident {
    Ident::new(text.to_string(), "test".to_string(), Span::new(0, text.len()))
}

fn calling(called: &str, args: &[&str]) -> Calling {
    Calling::new(ident(called), args.iter().map(|a| ident(a)).collect())
}

fn invocation(called: &str, args: &[&str]) -> Macro {
    Macro::new(ident(called), args.iter().map(|a| ident(a)).collect())
}

fn function(name: &str, formals: &[&str], body: Vec<Stmt>) -> Function {
    Function::new(ident(name), formals.iter().map(|a| ident(a)).collect(), body)
}

fn cmd(op: Op, a: u16, b: u16) -> Command {
    Command::new(op, Value::new(a), Value::new(b))
}

#[test]
fn redirect_falls_through_to_literals() {
    let c = Compiler::new();
    assert_eq!(c.redirect(&ident("0x2A")).unwrap().get(), 42);
    assert_eq!(c.redirect(&ident("0b101")).unwrap().get(), 5);
    assert_eq!(c.redirect(&ident("0o17")).unwrap().get(), 15);
    assert_eq!(c.redirect(&ident("99")).unwrap().get(), 99);
}

#[test]
fn redirect_prefers_defines_over_literals() {
    let mut c = Compiler::new();
    c.compile_define(Define { name: ident("99"), value: ident("7") }).unwrap();
    assert_eq!(c.redirect(&ident("99")).unwrap().get(), 7);
}

#[test]
fn redirect_unresolved_is_an_error() {
    let c = Compiler::new();
    let e = c.redirect(&ident("nope")).unwrap_err();
    assert!(matches!(e, CompileError::UnresolvedIdentifier { .. }));
    if let CompileError::UnresolvedIdentifier { ident: id } = e {
        assert_eq!(id.literal(), "nope");
        assert_eq!(id.path(), "test");
    }
}

#[test]
fn define_resolves_through_earlier_defines() {
    let mut c = Compiler::new();
    c.compile_define(Define { name: ident("A"), value: ident("0x10") }).unwrap();
    c.compile_define(Define { name: ident("B"), value: ident("A") }).unwrap();
    assert_eq!(c.redirect(&ident("B")).unwrap().get(), 0x10);
}

#[test]
fn args_shadow_defines() {
    // With `x` defined as 5, calling `F 9` where `F x = SET 0x10 x` must
    // use the argument binding, and a later top-level use of `x` must see
    // the define again.
    let mut c = Compiler::new();
    c.compile_define(Define { name: ident("x"), value: ident("5") }).unwrap();
    c.compile_function(function(
        "F",
        &["x"],
        vec![Stmt::Calling(calling("SET", &["0x10", "x"]))],
    ))
    .unwrap();
    c.compile_calling(&calling("F", &["9"])).unwrap();
    c.compile_calling(&calling("SET", &["0x11", "x"])).unwrap();
    assert_eq!(
        c.commands(),
        vec![cmd(Op::SET, 0x10, 9), cmd(Op::SET, 0x11, 5)]
    );
}

#[test]
fn scoped_save_restore_through_nested_calls() {
    // OUTER x = [F 9; SET 0x14 x], F x = G x, G x = SET 0x12 x.
    // Calling OUTER 3 binds x=3; F 9 shadows it with 9 down the chain;
    // after F finishes, the outer binding of x must be 3 again.
    let mut c = Compiler::new();
    c.compile_function(function(
        "G",
        &["x"],
        vec![Stmt::Calling(calling("SET", &["0x12", "x"]))],
    ))
    .unwrap();
    c.compile_function(function("F", &["x"], vec![Stmt::Calling(calling("G", &["x"]))]))
        .unwrap();
    c.compile_function(function(
        "OUTER",
        &["x"],
        vec![
            Stmt::Calling(calling("F", &["9"])),
            Stmt::Calling(calling("SET", &["0x14", "x"])),
        ],
    ))
    .unwrap();
    c.compile_calling(&calling("OUTER", &["3"])).unwrap();
    assert_eq!(
        c.commands(),
        vec![cmd(Op::SET, 0x12, 9), cmd(Op::SET, 0x14, 3)]
    );
    // The binding was removed on the way out: x no longer resolves.
    assert!(matches!(
        c.redirect(&ident("x")),
        Err(CompileError::UnresolvedIdentifier { .. })
    ));
}

#[test]
fn builtin_arity_is_two() {
    let mut c = Compiler::new();
    let e = c.compile_calling(&calling("SET", &["0x10"])).unwrap_err();
    if let CompileError::ArityMismatch { expected, actual, .. } = e {
        assert_eq!(expected, 2);
        assert_eq!(actual, 1);
    } else {
        panic!("expected an arity error");
    }
    let e = c.compile_calling(&calling("SET", &["0x10", "1", "2"])).unwrap_err();
    assert!(matches!(e, CompileError::ArityMismatch { expected: 2, actual: 3, .. }));
}

#[test]
fn function_arity_is_enforced() {
    let mut c = Compiler::new();
    c.compile_function(function(
        "ADD2",
        &["a", "b"],
        vec![Stmt::Calling(calling("SET", &["a", "b"]))],
    ))
    .unwrap();
    let e = c.compile_calling(&calling("ADD2", &["1"])).unwrap_err();
    assert!(matches!(e, CompileError::ArityMismatch { expected: 2, actual: 1, .. }));
    let e = c.compile_calling(&calling("ADD2", &["1", "2", "3"])).unwrap_err();
    assert!(matches!(e, CompileError::ArityMismatch { expected: 2, actual: 3, .. }));
}

#[test]
fn undefined_function_is_an_error() {
    let mut c = Compiler::new();
    let e = c.compile_calling(&calling("NOPE", &["1"])).unwrap_err();
    assert!(matches!(e, CompileError::UndefinedFunction { .. }));
}

#[test]
fn duplicate_function_carries_both_names() {
    let mut c = Compiler::new();
    c.compile_function(function("F", &[], vec![])).unwrap();
    let e = c.compile_function(function("F", &[], vec![])).unwrap_err();
    if let CompileError::DuplicateFunction { name, original } = e {
        assert_eq!(name.literal(), "F");
        assert_eq!(original.literal(), "F");
    } else {
        panic!("expected a duplicate-function error");
    }
}

#[test]
fn undefined_macro_is_an_error() {
    let mut c = Compiler::new();
    let e = c.compile_macro(&invocation("nope", &[])).unwrap_err();
    assert!(matches!(e, CompileError::UndefinedMacro { .. }));
}

#[test]
fn recursion_is_cut_off() {
    let mut c = Compiler::new();
    c.compile_function(function("F", &["x"], vec![Stmt::Calling(calling("F", &["x"]))]))
        .unwrap();
    let e = c.compile_calling(&calling("F", &["1"])).unwrap_err();
    assert!(matches!(e, CompileError::RecursionLimit { .. }));
}

#[test]
fn inlining_at_two_sites_gives_independent_commands() {
    let mut c = Compiler::new();
    c.compile_function(function(
        "ADD2",
        &["a", "b"],
        vec![Stmt::Calling(calling("SET", &["a", "b"]))],
    ))
    .unwrap();
    c.compile_calling(&calling("ADD2", &["0x10", "1"])).unwrap();
    c.compile_calling(&calling("ADD2", &["0x12", "2"])).unwrap();
    assert_eq!(
        c.commands(),
        vec![cmd(Op::SET, 0x10, 1), cmd(Op::SET, 0x12, 2)]
    );
}

#[test]
fn import_compiles_the_registered_unit() {
    let mut c = Compiler::new();
    c.add_source_unit(
        "lib1".to_string(),
        vec![Item::Define(Define { name: ident("x"), value: ident("42") })],
    );
    c.compile_macro(&invocation("import", &["lib1"])).unwrap();
    c.compile_calling(&calling("SET", &["0x10", "x"])).unwrap();
    assert_eq!(c.commands(), vec![cmd(Op::SET, 0x10, 42)]);
}

#[test]
fn import_of_a_missing_unit_is_an_error() {
    let mut c = Compiler::new();
    let e = c.compile_macro(&invocation("import", &["nowhere"])).unwrap_err();
    if let CompileError::UnitNotFound { name } = e {
        assert_eq!(name.literal(), "nowhere");
    } else {
        panic!("expected a unit-not-found error");
    }
}

#[test]
fn items_dispatch_to_their_compilers() {
    let mut c = Compiler::new();
    c.compile_item(&Item::Define(Define { name: ident("A"), value: ident("3") })).unwrap();
    c.compile_item(&Item::Function(function(
        "F",
        &[],
        vec![Stmt::Calling(calling("SET", &["0x10", "A"]))],
    )))
    .unwrap();
    c.compile_item(&Item::Calling(calling("F", &[]))).unwrap();
    assert_eq!(c.commands(), vec![cmd(Op::SET, 0x10, 3)]);
}

#[test]
fn end_to_end_two_sets_then_abort() {
    let mut c = Compiler::new();
    c.compile_calling(&calling("SET", &["0x10", "7"])).unwrap();
    c.compile_calling(&calling("SET", &["0x12", "0"])).unwrap();
    let mut mem = Memory::new();
    let report = c.run(Value::new(0xF000), &mut mem, 100);
    assert_eq!(report.outcome, RunOutcome::InvalidOpcode);
    assert_eq!(mem.read(Value::new(0x10)).get(), 7);
    assert_eq!(mem.read(Value::new(0x12)).get(), 0);
    assert!(report.output.is_empty());
}

#[test]
fn end_to_end_double_indirection() {
    let mut c = Compiler::new();
    c.compile_calling(&calling("LOD", &["0x20", "0x22"])).unwrap();
    let mut mem = Memory::new();
    mem.write(Value::new(0x22), Value::new(0x10));
    mem.write(Value::new(0x10), Value::new(99));
    let report = c.run(Value::new(0xF000), &mut mem, 100);
    assert_eq!(report.outcome, RunOutcome::InvalidOpcode);
    assert_eq!(mem.read(Value::new(0x20)).get(), 99);
}

#[test]
fn end_to_end_inlined_function() {
    let mut c = Compiler::new();
    c.compile_function(function(
        "ADD2",
        &["a", "b"],
        vec![Stmt::Calling(calling("SET", &["a", "b"]))],
    ))
    .unwrap();
    c.compile_calling(&calling("ADD2", &["0x10", "1"])).unwrap();
    c.compile_calling(&calling("ADD2", &["0x12", "2"])).unwrap();
    let mut mem = Memory::new();
    let report = c.run(Value::new(0xF000), &mut mem, 100);
    assert_eq!(report.outcome, RunOutcome::InvalidOpcode);
    assert_eq!(mem.read(Value::new(0x10)).get(), 1);
    assert_eq!(mem.read(Value::new(0x12)).get(), 2);
}

#[test]
fn pc_overflow_aborts_instead_of_wrapping() {
    // SET 0x0000 0xFFFC rewrites the counter cell; advancing from 0xFFFC
    // would leave the word range, so the run aborts.
    let mut c = Compiler::new();
    c.compile_calling(&calling("SET", &["0x0000", "0xFFFC"])).unwrap();
    let mut mem = Memory::new();
    let report = c.run(Value::new(0xF000), &mut mem, 100);
    assert_eq!(report.outcome, RunOutcome::PcOverflow);
}

#[test]
fn fetch_past_the_buffer_aborts() {
    // Jumping the counter to 0xFFF9 advances it to 0xFFFE, whose fetch
    // would run past the end of memory.
    let mut c = Compiler::new();
    c.compile_calling(&calling("SET", &["0x0000", "0xFFF9"])).unwrap();
    let mut mem = Memory::new();
    let report = c.run(Value::new(0xF000), &mut mem, 100);
    assert_eq!(report.outcome, RunOutcome::OutOfBounds);
}

#[test]
fn program_that_does_not_fit_is_too_large() {
    let mut c = Compiler::new();
    c.compile_calling(&calling("SET", &["0x10", "1"])).unwrap();
    let mut mem = Memory::new();
    let report = c.run(Value::new(0xFFFC), &mut mem, 100);
    assert_eq!(report.outcome, RunOutcome::TooLarge);
}

#[test]
fn self_modification_redirects_control_flow() {
    // The program at 0xF000: SET 0x10 7, then SET 0x0000 0xEFFB.  The
    // second command rewrites the counter cell so that, advanced by five,
    // execution resumes at 0xF000 again: an endless loop cut by the step
    // budget.
    let mut c = Compiler::new();
    c.compile_calling(&calling("SET", &["0x10", "7"])).unwrap();
    c.compile_calling(&calling("SET", &["0x0000", "0xEFFB"])).unwrap();
    let mut mem = Memory::new();
    let report = c.run(Value::new(0xF000), &mut mem, 7);
    assert_eq!(report.outcome, RunOutcome::StepLimit);
    assert_eq!(mem.read(Value::new(0x10)).get(), 7);
}

#[test]
fn deferred_macro_fires_once_per_visit() {
    // A print_mem bound at the entry address, followed by a command that
    // loops control flow back to the entry: the macro fires once per
    // iteration, re-reading live memory each time.
    let mut c = Compiler::new();
    c.compile_macro(&invocation("print_mem", &["0x10"])).unwrap();
    c.compile_calling(&calling("SET", &["0x0000", "0xEFFB"])).unwrap();
    let mut mem = Memory::new();
    mem.write(Value::new(0x10), Value::new(0xBEEF));
    let report = c.run(Value::new(0xF000), &mut mem, 3);
    assert_eq!(report.outcome, RunOutcome::StepLimit);
    assert_eq!(report.output, vec!["0x10: 0xbeef", "0x10: 0xbeef", "0x10: 0xbeef"]);
}

#[test]
fn deferred_macro_fires_once_without_revisits() {
    let mut c = Compiler::new();
    c.compile_macro(&invocation("print_mem", &["0x10", "mystery"])).unwrap();
    c.compile_calling(&calling("SET", &["0x10", "7"])).unwrap();
    let mut mem = Memory::new();
    let report = c.run(Value::new(0xF000), &mut mem, 100);
    assert_eq!(report.outcome, RunOutcome::InvalidOpcode);
    // The macro fired before the SET at its address executed, so it saw
    // the old contents of 0x10; its unresolved argument reports none.
    assert_eq!(report.output, vec!["0x10: 0x0000", "mystery: none"]);
}

#[test]
fn import_works_inside_a_function_body() {
    let mut c = Compiler::new();
    c.add_source_unit(
        "defs".to_string(),
        vec![Item::Define(Define { name: ident("base"), value: ident("0x40") })],
    );
    c.compile_function(function(
        "INIT",
        &[],
        vec![
            Stmt::Macro(invocation("import", &["defs"])),
            Stmt::Calling(calling("SET", &["base", "1"])),
        ],
    ))
    .unwrap();
    c.compile_calling(&calling("INIT", &[])).unwrap();
    assert_eq!(c.commands(), vec![cmd(Op::SET, 0x40, 1)]);
}

#[test]
fn imports_nest_across_units() {
    let mut c = Compiler::new();
    c.add_source_unit(
        "inner".to_string(),
        vec![Item::Define(Define { name: ident("deep"), value: ident("9") })],
    );
    c.add_source_unit(
        "outer".to_string(),
        vec![
            Item::Macro(invocation("import", &["inner"])),
            Item::Calling(calling("SET", &["0x10", "deep"])),
        ],
    );
    c.compile_macro(&invocation("import", &["outer"])).unwrap();
    assert_eq!(c.commands(), vec![cmd(Op::SET, 0x10, 9)]);
}

#[test]
fn registering_a_unit_again_replaces_it() {
    let mut c = Compiler::new();
    c.add_source_unit(
        "u".to_string(),
        vec![Item::Define(Define { name: ident("v"), value: ident("1") })],
    );
    c.add_source_unit(
        "u".to_string(),
        vec![Item::Define(Define { name: ident("v"), value: ident("2") })],
    );
    c.compile_macro(&invocation("import", &["u"])).unwrap();
    assert_eq!(c.redirect(&ident("v")).unwrap().get(), 2);
}

#[test]
fn print_mem_reports_unreadable_addresses_as_none() {
    let call = MacroCall {
        called: Deferred::PrintMem,
        args: vec![
            Meta { id: ident("edge"), val: Some(Value::new(0xFFFF)) },
            Meta { id: ident("ok"), val: Some(Value::new(0x10)) },
        ],
    };
    let mut mem = Memory::new();
    mem.write(Value::new(0x10), Value::new(0x1234));
    let lines = call.call(&mut mem);
    assert_eq!(lines, vec!["edge: none", "ok: 0x1234"]);
}

#[test]
fn commands_skips_deferred_calls() {
    let mut c = Compiler::new();
    c.compile_macro(&invocation("print_mem", &["0x10"])).unwrap();
    c.compile_calling(&calling("SET", &["0x10", "7"])).unwrap();
    assert_eq!(c.commands(), vec![cmd(Op::SET, 0x10, 7)]);
}
