//! Tests for the source-text parser, alone and through the whole
//! pipeline: text to items, items to a program, the program to memory.

use mcvm::ast::{Item, Stmt};
use mcvm::command::Command;
use mcvm::compiler::Compiler;
use mcvm::memory::Memory;
use mcvm::op::Op;
use mcvm::parser::{parse_items, ParseIssue};
use mcvm::value::Value;
use mcvm::vm::RunOutcome;

fn cmd(op: Op, a: u16, b: u16) -> Command {
    Command::new(op, Value::new(a), Value::new(b))
}

fn compile_source(src: &str) -> Compiler {
    let items = parse_items(src, "test").unwrap();
    let mut c = Compiler::new();
    c.compile_items(&items).unwrap();
    c
}

#[test]
fn parses_a_call_line() {
    let items = parse_items("SET 0x10 7\n", "test").unwrap();
    assert_eq!(items.len(), 1);
    match &items[0] {
        Item::Calling(c) => {
            assert_eq!(c.called.literal(), "SET");
            assert_eq!(c.called.path(), "test");
            assert_eq!(c.args.len(), 2);
            assert_eq!(c.args[0].literal(), "0x10");
            assert_eq!(c.args[1].literal(), "7");
        }
        other => panic!("expected a call, got {other:?}"),
    }
}

#[test]
fn parses_a_define_line() {
    let items = parse_items("dst = 0x10", "test").unwrap();
    assert_eq!(items.len(), 1);
    match &items[0] {
        Item::Define(d) => {
            assert_eq!(d.name.literal(), "dst");
            assert_eq!(d.value.literal(), "0x10");
        }
        other => panic!("expected a define, got {other:?}"),
    }
}

#[test]
fn parses_a_macro_line() {
    let items = parse_items("#print_mem 0x10 x\n", "test").unwrap();
    assert_eq!(items.len(), 1);
    match &items[0] {
        Item::Macro(m) => {
            assert_eq!(m.called.literal(), "print_mem");
            assert_eq!(m.args.len(), 2);
        }
        other => panic!("expected a macro invocation, got {other:?}"),
    }
}

#[test]
fn parses_a_function_with_tab_indent() {
    let items = parse_items("ADD2 a b =\n\tSET a b\n", "test").unwrap();
    assert_eq!(items.len(), 1);
    match &items[0] {
        Item::Function(f) => {
            assert_eq!(f.name.literal(), "ADD2");
            assert_eq!(f.args.len(), 2);
            assert_eq!(f.body.len(), 1);
            assert!(matches!(f.body[0], Stmt::Calling(_)));
        }
        other => panic!("expected a function, got {other:?}"),
    }
}

#[test]
fn parses_a_function_with_space_indent() {
    let items = parse_items("F x =\n    SET 0x10 x\n    SET 0x12 x\nF 5\n", "test").unwrap();
    assert_eq!(items.len(), 2);
    match &items[0] {
        Item::Function(f) => assert_eq!(f.body.len(), 2),
        other => panic!("expected a function, got {other:?}"),
    }
    assert!(matches!(items[1], Item::Calling(_)));
}

#[test]
fn comments_and_blank_lines_are_skipped() {
    let src = "; leading comment\n\nSET 0x10 7 ; trailing comment\n\n; done\n";
    let items = parse_items(src, "test").unwrap();
    assert_eq!(items.len(), 1);
}

#[test]
fn ident_spans_point_into_the_source() {
    let items = parse_items("SET 0x10 7", "test").unwrap();
    match &items[0] {
        Item::Calling(c) => {
            let span = c.called.span();
            assert_eq!((span.start, span.end), (0, 3));
            let span = c.args[0].span();
            assert_eq!((span.start, span.end), (4, 8));
        }
        other => panic!("expected a call, got {other:?}"),
    }
}

#[test]
fn empty_input_has_no_items() {
    assert!(parse_items("", "test").unwrap().is_empty());
    assert!(parse_items("\n\n", "test").unwrap().is_empty());
    assert!(parse_items("; only a comment", "test").unwrap().is_empty());
}

#[test]
fn garbage_is_invalid_syntax() {
    let fault = parse_items("= = =\n", "test").unwrap_err();
    assert_eq!(fault.issue, ParseIssue::InvalidSyntax);
}

#[test]
fn unindented_second_line_ends_the_body() {
    let items = parse_items("F x =\n\tSET 0x10 x\nSET 0x12 1\n", "test").unwrap();
    assert_eq!(items.len(), 2);
    match &items[0] {
        Item::Function(f) => assert_eq!(f.body.len(), 1),
        other => panic!("expected a function, got {other:?}"),
    }
}

#[test]
fn pipeline_from_text_to_commands() {
    let src = "dst = 0x10\nADD2 a b =\n\tSET a b\nADD2 dst 1\nADD2 0x12 2\n";
    let c = compile_source(src);
    assert_eq!(
        c.commands(),
        vec![cmd(Op::SET, 0x10, 1), cmd(Op::SET, 0x12, 2)]
    );
}

#[test]
fn pipeline_from_text_to_memory() {
    let c = compile_source("SET 0x10 7\nSET 0x12 0\n");
    let mut mem = Memory::new();
    let report = c.run(Value::new(0xF000), &mut mem, 100);
    assert_eq!(report.outcome, RunOutcome::InvalidOpcode);
    assert_eq!(mem.read(Value::new(0x10)).get(), 7);
    assert_eq!(mem.read(Value::new(0x12)).get(), 0);
}
