use agar::data::Data;
use agar::dec::Dec;
use agar::instruction::{Instruction, OpCode, Operands};
use agar::program::Program;

fn dec(s: &str) -> Dec {
    Dec::parse_chars(&s.chars().collect()).unwrap()
}

#[test]
fn program_eq() {
    let ops = vec![Instruction {
        op_code: OpCode::PushInt,
        operands: Operands::One(Data::Int(15)),
    }];
    let program = Program { ops };
    let bytecode = program.to_bytes();
    let deser_program = Program::from_bytes(&bytecode);
    assert_eq!(Ok(program), deser_program);
}

#[test]
fn round_trip_every_opcode() {
    let ops = vec![
        Instruction::nop(),
        Instruction::pushi(-1),
        Instruction::pushf(dec("-12.345")),
        Instruction::add(),
        Instruction::sub(),
        Instruction::mul(),
        Instruction::dup(),
        Instruction::print(),
        Instruction::exit(),
        Instruction::panic(),
        Instruction::printch(),
        Instruction::eq(),
        Instruction::gr(),
        Instruction::less(),
        Instruction::not(),
        Instruction::jump(7),
        Instruction::cjump(-3),
    ];
    let program = Program { ops };
    let bytes = program.to_bytes();
    assert_eq!(Program::from_bytes(&bytes), Ok(program));
}

#[test]
fn opcode_bytes_are_stable() {
    let table: [(OpCode, u8); 17] = [
        (OpCode::Nop, 0),
        (OpCode::PushInt, 1),
        (OpCode::PushFloat, 2),
        (OpCode::Add, 3),
        (OpCode::Sub, 4),
        (OpCode::Mul, 5),
        (OpCode::Dup, 6),
        (OpCode::Print, 7),
        (OpCode::Exit, 8),
        (OpCode::Panic, 9),
        (OpCode::PrintChar, 10),
        (OpCode::Eq, 11),
        (OpCode::Gr, 12),
        (OpCode::Less, 13),
        (OpCode::Not, 14),
        (OpCode::Jump, 15),
        (OpCode::CJump, 16),
    ];
    for (op, byte) in table {
        assert_eq!(op.as_byte(), byte);
        assert_eq!(OpCode::from_byte(byte), Some(op));
    }
    assert_eq!(OpCode::from_byte(17), None);
    assert_eq!(OpCode::from_byte(255), None);
}

#[test]
fn pushi_encoding_is_little_endian() {
    let program = Program {
        ops: vec![Instruction::pushi(0x0102030405060708)],
    };
    let bytes = program.to_bytes();
    assert_eq!(bytes, vec![1, 8, 7, 6, 5, 4, 3, 2, 1]);
}

#[test]
fn jump_payload_encodes_like_pushi() {
    let jump = Program { ops: vec![Instruction::jump(-2)] }.to_bytes();
    let push = Program { ops: vec![Instruction::pushi(-2)] }.to_bytes();
    assert_eq!(jump.len(), 9);
    assert_eq!(jump[1..], push[1..]);
    assert_eq!(jump[0], 15);
}

#[test]
fn float_payload_is_sixteen_bytes() {
    let bytes = Program {
        ops: vec![Instruction::pushf(dec("1.5"))],
    }
    .to_bytes();
    assert_eq!(bytes.len(), 17);
    assert_eq!(bytes[0], 2);
}

#[test]
fn decode_unknown_opcode_fails() {
    let r = Program::from_bytes(&vec![99]);
    assert_eq!(r, Err("Unknown opcode in bytecode"));
}

#[test]
fn decode_truncated_int_payload_fails() {
    let r = Program::from_bytes(&vec![1, 0, 0]);
    assert_eq!(r, Err("Can't read constant from bytecode"));
}

#[test]
fn decode_truncated_float_payload_fails() {
    let r = Program::from_bytes(&vec![2, 0, 0, 0, 0]);
    assert_eq!(r, Err("Can't read constant from bytecode"));
}

#[test]
fn decode_empty_is_the_empty_program() {
    let r = Program::from_bytes(&Vec::new()).unwrap();
    assert_eq!(r.ops.len(), 0);
}
