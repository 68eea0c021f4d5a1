//! Tests for the word type, the instruction set, memory and the runner.

use mcvm::command::Command;
use mcvm::memory::Memory;
use mcvm::op::{Fault, InvalidOp, Op};
use mcvm::value::Value;

#[test]
fn parse_literal_radixes() {
    assert_eq!(Value::parse_literal("0x2A").unwrap().get(), 42);
    assert_eq!(Value::parse_literal("0b101").unwrap().get(), 5);
    assert_eq!(Value::parse_literal("0o17").unwrap().get(), 15);
    assert_eq!(Value::parse_literal("99").unwrap().get(), 99);
    assert_eq!(Value::parse_literal("0xffff").unwrap().get(), 0xFFFF);
    assert_eq!(Value::parse_literal("0").unwrap().get(), 0);
}

#[test]
fn parse_literal_signs_and_failures() {
    assert_eq!(Value::parse_literal("+42").unwrap().get(), 42);
    assert_eq!(Value::parse_literal("-0").unwrap().get(), 0);
    assert!(Value::parse_literal("-1").is_none());
    assert!(Value::parse_literal("").is_none());
    assert!(Value::parse_literal("0x").is_none());
    assert!(Value::parse_literal("70000").is_none());
    assert!(Value::parse_literal("0x10000").is_none());
    assert!(Value::parse_literal("12ab").is_none());
    assert!(Value::parse_literal("SET").is_none());
    assert!(Value::parse_literal("+").is_none());
}

#[test]
fn hex_rendering() {
    assert_eq!(Value::new(0xABCD).to_hex(), "0xabcd");
    assert_eq!(Value::new(0).to_hex(), "0x0000");
    assert_eq!(Value::new(42).to_hex(), "0x002a");
}

#[test]
fn next_command_advances_by_five() {
    assert_eq!(Value::new(0).next_command().unwrap().get(), 5);
    assert_eq!(Value::new(0xF000).next_command().unwrap().get(), 0xF005);
    assert_eq!(Value::new(0xFFFA).next_command().unwrap().get(), 0xFFFF);
    assert!(Value::new(0xFFFB).next_command().is_none());
    assert!(Value::new(0xFFFC).next_command().is_none());
    assert!(Value::new(0xFFFF).next_command().is_none());
}

#[test]
fn opcode_codes() {
    assert_eq!(Op::SUB.code(), 2);
    assert_eq!(Op::SET.code(), 3);
    assert_eq!(Op::LOD.code(), 5);
    assert_eq!(Op::STR.code(), 6);
    assert_eq!(Op::Reserved1.code(), 1);
    assert_eq!(Op::Reserved2.code(), 4);
    for c in 1u8..=6 {
        assert_eq!(Op::from_code(c).unwrap().code(), c);
    }
    assert_eq!(Op::from_code(0), Err(InvalidOp));
    assert_eq!(Op::from_code(7), Err(InvalidOp));
}

#[test]
fn mnemonics() {
    assert_eq!(Op::from_mnemonic(&"SUB".to_string()), Ok(Op::SUB));
    assert_eq!(Op::from_mnemonic(&"SET".to_string()), Ok(Op::SET));
    assert_eq!(Op::from_mnemonic(&"LOD".to_string()), Ok(Op::LOD));
    assert_eq!(Op::from_mnemonic(&"STR".to_string()), Ok(Op::STR));
    assert_eq!(Op::from_mnemonic(&"set".to_string()), Err(InvalidOp));
    assert_eq!(Op::from_mnemonic(&"MOV".to_string()), Err(InvalidOp));
}

#[test]
fn codec_round_trip() {
    let ops = [Op::Reserved1, Op::SUB, Op::SET, Op::Reserved2, Op::LOD, Op::STR];
    let vals = [0u16, 1, 0x7F, 0x80, 0x100, 0xABCD, 0xFFFF];
    for &op in &ops {
        for &a in &vals {
            for &b in &vals {
                let c = Command::new(op, Value::new(a), Value::new(b));
                let bytes = c.encode();
                assert_eq!(bytes.len(), 5);
                assert_eq!(Command::decode(&bytes), Ok(c));
            }
        }
    }
}

#[test]
fn encode_is_little_endian() {
    let c = Command::new(Op::SET, Value::new(0x1234), Value::new(0xABCD));
    assert_eq!(c.encode(), vec![3, 0x34, 0x12, 0xCD, 0xAB]);
}

#[test]
fn decode_rejects_unknown_opcode() {
    assert_eq!(Command::decode(&vec![0, 0, 0, 0, 0]), Err(InvalidOp));
    assert_eq!(Command::decode(&vec![7, 1, 2, 3, 4]), Err(InvalidOp));
}

#[test]
fn memory_words_round_trip() {
    let mut mem = Memory::new();
    assert_eq!(mem.read(Value::new(0x10)).get(), 0);
    mem.write(Value::new(0x10), Value::new(0xBEEF));
    assert_eq!(mem.read(Value::new(0x10)).get(), 0xBEEF);
    mem.write(Value::new(0xFFFE), Value::new(7));
    assert_eq!(mem.read(Value::new(0xFFFE)).get(), 7);
}

#[test]
fn set_stores_immediate() {
    let mut mem = Memory::new();
    let r = Op::SET.execute(&mut mem, Value::new(0x40), Value::new(0x1234));
    assert_eq!(r, Ok(()));
    assert_eq!(mem.read(Value::new(0x40)).get(), 0x1234);
}

#[test]
fn sub_wraps() {
    let mut mem = Memory::new();
    mem.write(Value::new(0x40), Value::new(5));
    mem.write(Value::new(0x42), Value::new(7));
    let r = Op::SUB.execute(&mut mem, Value::new(0x40), Value::new(0x42));
    assert_eq!(r, Ok(()));
    assert_eq!(mem.read(Value::new(0x40)).get(), 0xFFFE);
}

#[test]
fn lod_is_double_indirect() {
    let mut mem = Memory::new();
    mem.write(Value::new(0x22), Value::new(0x10));
    mem.write(Value::new(0x10), Value::new(99));
    let r = Op::LOD.execute(&mut mem, Value::new(0x20), Value::new(0x22));
    assert_eq!(r, Ok(()));
    assert_eq!(mem.read(Value::new(0x20)).get(), 99);
}

#[test]
fn str_stores_through_pointer() {
    let mut mem = Memory::new();
    mem.write(Value::new(0x30), Value::new(77));
    mem.write(Value::new(0x32), Value::new(0x50));
    let r = Op::STR.execute(&mut mem, Value::new(0x30), Value::new(0x32));
    assert_eq!(r, Ok(()));
    assert_eq!(mem.read(Value::new(0x50)).get(), 77);
}

#[test]
fn reserved_opcodes_fault() {
    let mut mem = Memory::new();
    assert_eq!(
        Op::Reserved1.execute(&mut mem, Value::new(0), Value::new(0)),
        Err(Fault::UnimplementedOpcode)
    );
    assert_eq!(
        Op::Reserved2.execute(&mut mem, Value::new(0), Value::new(0)),
        Err(Fault::UnimplementedOpcode)
    );
}

#[test]
fn out_of_range_access_faults() {
    let mut mem = Memory::new();
    assert_eq!(
        Op::SET.execute(&mut mem, Value::new(0xFFFF), Value::new(1)),
        Err(Fault::OutOfBounds)
    );
    mem.write(Value::new(0x10), Value::new(0xFFFF));
    assert_eq!(
        Op::LOD.execute(&mut mem, Value::new(0x20), Value::new(0x10)),
        Err(Fault::OutOfBounds)
    );
}

#[test]
fn eval_runs_the_command_at_the_counter() {
    let mut mem = Memory::new();
    let c = Command::new(Op::SET, Value::new(0x10), Value::new(7));
    let bytes = c.encode();
    mem.store(0xF000, &bytes);
    mem.write(Value::new(0), Value::new(0xF000));
    assert_eq!(mem.eval(Value::new(0)), Ok(()));
    assert_eq!(mem.read(Value::new(0x10)).get(), 7);
}

#[test]
fn eval_reports_invalid_opcode() {
    let mut mem = Memory::new();
    mem.write(Value::new(0), Value::new(0x8000));
    assert_eq!(mem.eval(Value::new(0)), Err(Fault::InvalidOpcode));
}

#[test]
fn eval_reports_reserved_opcode_distinctly() {
    let mut mem = Memory::new();
    let bytes = Command::new(Op::Reserved1, Value::new(0), Value::new(0)).encode();
    mem.store(0x8000, &bytes);
    mem.write(Value::new(0), Value::new(0x8000));
    assert_eq!(mem.eval(Value::new(0)), Err(Fault::UnimplementedOpcode));
}
