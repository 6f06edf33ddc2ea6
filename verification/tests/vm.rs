use agar::data::Data;
use agar::dec::Dec;
use agar::instruction::Instruction;
use agar::interp::{ExitStatus, Interpreter, RuntimeError};
use agar::program::Program;

fn dec(s: &str) -> Dec {
    Dec::parse_chars(&s.chars().collect()).unwrap()
}

#[test]
fn add_int() {
    let mut vm = Interpreter::new();
    let ops = vec![
        Instruction::pushi(34),
        Instruction::pushi(35),
        Instruction::add(),
        Instruction::print(),
    ];
    let mut buffer = Vec::new();
    let program = Program { ops };
    vm.load_program(program);
    let status = vm.run(&mut buffer);
    let stack = vm.stack();
    assert_eq!(*stack, vec![]);
    assert_eq!(status, ExitStatus::Success);
    assert_eq!(buffer, b"69")
}

#[test]
fn add_float() {
    let mut vm = Interpreter::new();
    let ops = vec![
        Instruction::pushf(dec("34.5")),
        Instruction::pushf(dec("34.6")),
        Instruction::add(),
        Instruction::print(),
    ];
    let mut buffer = Vec::new();
    let program = Program { ops };
    vm.load_program(program);
    let status = vm.run(&mut buffer);
    let stack = vm.stack();
    assert_eq!(*stack, vec![]);
    assert_eq!(status, ExitStatus::Success);
    assert_eq!(buffer, b"69.1")
}

#[test]
fn sub_int() {
    let mut vm = Interpreter::new();
    let ops = vec![
        Instruction::pushi(34),
        Instruction::pushi(35),
        Instruction::sub(),
        Instruction::print(),
    ];
    let mut buffer = Vec::new();
    let program = Program { ops };
    vm.load_program(program);
    let status = vm.run(&mut buffer);
    let stack = vm.stack();
    assert_eq!(*stack, vec![]);
    assert_eq!(status, ExitStatus::Success);
    assert_eq!(buffer, b"-1")
}

#[test]
fn sub_float() {
    let mut vm = Interpreter::new();
    let ops = vec![
        Instruction::pushf(dec("34.5")),
        Instruction::pushf(dec("35.6")),
        Instruction::sub(),
        Instruction::print(),
    ];
    let mut buffer = Vec::new();
    let program = Program { ops };
    vm.load_program(program);
    let status = vm.run(&mut buffer);
    let stack = vm.stack();
    assert_eq!(*stack, vec![]);
    assert_eq!(status, ExitStatus::Success);
    assert_eq!(buffer, b"-1.1")
}

#[test]
fn mul_float() {
    let mut vm = Interpreter::new();
    let ops = vec![
        Instruction::pushf(dec("1.5")),
        Instruction::pushf(dec("2.5")),
        Instruction::mul(),
        Instruction::print(),
    ];
    let mut buffer = Vec::new();
    let program = Program { ops };
    vm.load_program(program);
    let status = vm.run(&mut buffer);
    let stack = vm.stack();
    assert_eq!(*stack, vec![]);
    assert_eq!(status, ExitStatus::Success);
    assert_eq!(buffer, b"3.75")
}

#[test]
fn mul_int() {
    let mut vm = Interpreter::new();
    let ops = vec![
        Instruction::pushi(20),
        Instruction::pushi(21),
        Instruction::mul(),
        Instruction::print(),
    ];
    let mut buffer = Vec::new();
    let program = Program { ops };
    vm.load_program(program);
    let status = vm.run(&mut buffer);
    let stack = vm.stack();
    assert_eq!(*stack, vec![]);
    assert_eq!(status, ExitStatus::Success);
    assert_eq!(buffer, b"420")
}

#[test]
fn user_exit() {
    let mut vm = Interpreter::new();
    let ops = vec![
        Instruction::pushf(dec("34.5")),
        Instruction::pushf(dec("34.6")),
        Instruction::exit(),
        Instruction::print(),
    ];
    let mut buffer = Vec::new();
    let program = Program { ops };
    vm.load_program(program);
    let status = vm.run(&mut buffer);
    let stack = vm.stack();
    assert_eq!(*stack, vec![Data::Float(dec("34.5")), Data::Float(dec("34.6"))]);
    assert_eq!(status, ExitStatus::Success);
    assert_eq!(buffer, b"")
}

#[test]
fn add_type_error() {
    let mut vm = Interpreter::new();
    let ops = vec![
        Instruction::pushi(34),
        Instruction::pushf(dec("35.5")),
        Instruction::add(),
        Instruction::print(),
    ];
    let mut buffer = Vec::new();
    let program = Program { ops };
    vm.load_program(program);
    let status = vm.run(&mut buffer);
    let stack = vm.stack();
    assert_eq!(*stack, vec![]);
    assert_eq!(status, ExitStatus::Error(RuntimeError::IncompatibleType));
    assert_eq!(buffer, b"")
}

#[test]
fn sub_type_error() {
    let mut vm = Interpreter::new();
    let ops = vec![
        Instruction::pushi(34),
        Instruction::pushf(dec("35.5")),
        Instruction::sub(),
        Instruction::print(),
    ];
    let mut buffer = Vec::new();
    let program = Program { ops };
    vm.load_program(program);
    let status = vm.run(&mut buffer);
    let stack = vm.stack();
    assert_eq!(*stack, vec![]);
    assert_eq!(status, ExitStatus::Error(RuntimeError::IncompatibleType));
    assert_eq!(buffer, b"")
}

#[test]
fn mul_type_error() {
    let mut vm = Interpreter::new();
    let ops = vec![
        Instruction::pushi(34),
        Instruction::pushf(dec("35.5")),
        Instruction::mul(),
        Instruction::print(),
    ];
    let mut buffer = Vec::new();
    let program = Program { ops };
    vm.load_program(program);
    let status = vm.run(&mut buffer);
    let stack = vm.stack();
    assert_eq!(*stack, vec![]);
    assert_eq!(status, ExitStatus::Error(RuntimeError::IncompatibleType));
    assert_eq!(buffer, b"")
}

#[test]
fn nop() {
    let mut vm = Interpreter::new();
    let ops = vec![Instruction::nop(), Instruction::nop()];
    let mut buffer = Vec::new();
    let program = Program { ops };
    vm.load_program(program);
    let status = vm.run(&mut buffer);
    let stack = vm.stack();
    assert_eq!(*stack, vec![]);
    assert_eq!(status, ExitStatus::Success);
    assert_eq!(buffer, b"")
}

#[test]
fn nop_with_add() {
    let mut vm = Interpreter::new();
    let ops = vec![
        Instruction::pushi(20),
        Instruction::nop(),
        Instruction::pushi(21),
        Instruction::nop(),
        Instruction::mul(),
        Instruction::nop(),
        Instruction::print(),
        Instruction::nop(),
    ];
    let mut buffer = Vec::new();
    let program = Program { ops };
    vm.load_program(program);
    let status = vm.run(&mut buffer);
    let stack = vm.stack();
    assert_eq!(*stack, vec![]);
    assert_eq!(status, ExitStatus::Success);
    assert_eq!(buffer, b"420")
}

#[test]
fn user_panic() {
    let mut vm = Interpreter::new();
    let ops = vec![Instruction::panic()];
    let mut buffer = Vec::new();
    let program = Program { ops };
    vm.load_program(program);
    let status = vm.run(&mut buffer);
    let stack = vm.stack();
    assert_eq!(*stack, vec![]);
    assert_eq!(status, ExitStatus::Panic);
}

#[test]
fn dup() {
    let mut vm = Interpreter::new();
    let ops = vec![
        Instruction::pushi(34),
        Instruction::dup(),
        Instruction::pushf(dec("35.5")),
        Instruction::dup(),
    ];
    let mut buffer = Vec::new();
    let program = Program { ops };
    vm.load_program(program);
    let status = vm.run(&mut buffer);
    let stack = vm.stack();
    assert_eq!(status, ExitStatus::Success);
    assert_eq!(buffer, b"");
    assert_eq!(
        *stack,
        vec![
            Data::Int(34),
            Data::Int(34),
            Data::Float(dec("35.5")),
            Data::Float(dec("35.5")),
        ]
    );
}

#[test]
fn print_char() {
    let mut vm = Interpreter::new();
    let ops = vec![
        Instruction::pushi(66),
        Instruction::pushi(65),
        Instruction::printch(),
        Instruction::printch(),
    ];
    let mut buffer = Vec::new();
    let program = Program { ops };
    vm.load_program(program);
    let status = vm.run(&mut buffer);
    let stack = vm.stack();
    assert_eq!(*stack, vec![]);
    assert_eq!(status, ExitStatus::Success);
    assert_eq!(buffer, b"AB")
}

#[test]
fn print_char_type_error() {
    let mut vm = Interpreter::new();
    let ops = vec![Instruction::pushf(dec("35.5")), Instruction::printch()];
    let mut buffer = Vec::new();
    let program = Program { ops };
    vm.load_program(program);
    let status = vm.run(&mut buffer);
    let stack = vm.stack();
    assert_eq!(*stack, vec![]);
    assert_eq!(status, ExitStatus::Error(RuntimeError::IncompatibleType));
    assert_eq!(buffer, b"")
}

#[test]
fn add_not_enough_args1() {
    let mut vm = Interpreter::new();
    let ops = vec![Instruction::pushi(100), Instruction::add()];
    let mut buffer = Vec::new();
    let program = Program { ops };
    vm.load_program(program);
    let status = vm.run(&mut buffer);
    let stack = vm.stack();
    assert_eq!(*stack, vec![]);
    assert_eq!(status, ExitStatus::Error(RuntimeError::NotEnoughArgs));
    assert_eq!(buffer, b"")
}

#[test]
fn add_not_enough_args2() {
    let mut vm = Interpreter::new();
    let ops = vec![Instruction::add()];
    let mut buffer = Vec::new();
    let program = Program { ops };
    vm.load_program(program);
    let status = vm.run(&mut buffer);
    let stack = vm.stack();
    assert_eq!(*stack, vec![]);
    assert_eq!(status, ExitStatus::Error(RuntimeError::NotEnoughArgs));
    assert_eq!(buffer, b"")
}

#[test]
fn sub_not_enough_args1() {
    let mut vm = Interpreter::new();
    let ops = vec![Instruction::pushi(100), Instruction::sub()];
    let mut buffer = Vec::new();
    let program = Program { ops };
    vm.load_program(program);
    let status = vm.run(&mut buffer);
    let stack = vm.stack();
    assert_eq!(*stack, vec![]);
    assert_eq!(status, ExitStatus::Error(RuntimeError::NotEnoughArgs));
    assert_eq!(buffer, b"")
}

#[test]
fn sub_not_enough_args2() {
    let mut vm = Interpreter::new();
    let ops = vec![Instruction::sub()];
    let mut buffer = Vec::new();
    let program = Program { ops };
    vm.load_program(program);
    let status = vm.run(&mut buffer);
    let stack = vm.stack();
    assert_eq!(*stack, vec![]);
    assert_eq!(status, ExitStatus::Error(RuntimeError::NotEnoughArgs));
    assert_eq!(buffer, b"")
}

#[test]
fn mul_not_enough_args1() {
    let mut vm = Interpreter::new();
    let ops = vec![Instruction::pushi(100), Instruction::mul()];
    let mut buffer = Vec::new();
    let program = Program { ops };
    vm.load_program(program);
    let status = vm.run(&mut buffer);
    let stack = vm.stack();
    assert_eq!(*stack, vec![]);
    assert_eq!(status, ExitStatus::Error(RuntimeError::NotEnoughArgs));
    assert_eq!(buffer, b"")
}

#[test]
fn mul_not_enough_args2() {
    let mut vm = Interpreter::new();
    let ops = vec![Instruction::mul()];
    let mut buffer = Vec::new();
    let program = Program { ops };
    vm.load_program(program);
    let status = vm.run(&mut buffer);
    let stack = vm.stack();
    assert_eq!(*stack, vec![]);
    assert_eq!(status, ExitStatus::Error(RuntimeError::NotEnoughArgs));
    assert_eq!(buffer, b"")
}

#[test]
fn print_not_enough_args() {
    let mut vm = Interpreter::new();
    let ops = vec![Instruction::print()];
    let mut buffer = Vec::new();
    let program = Program { ops };
    vm.load_program(program);
    let status = vm.run(&mut buffer);
    let stack = vm.stack();
    assert_eq!(*stack, vec![]);
    assert_eq!(status, ExitStatus::Error(RuntimeError::NotEnoughArgs));
    assert_eq!(buffer, b"")
}

#[test]
fn print_char_not_enough_args() {
    let mut vm = Interpreter::new();
    let ops = vec![Instruction::printch()];
    let mut buffer = Vec::new();
    let program = Program { ops };
    vm.load_program(program);
    let status = vm.run(&mut buffer);
    let stack = vm.stack();
    assert_eq!(*stack, vec![]);
    assert_eq!(status, ExitStatus::Error(RuntimeError::NotEnoughArgs));
    assert_eq!(buffer, b"")
}

#[test]
fn eq_int_int() {
    let mut vm = Interpreter::new();
    let ops = vec![
        Instruction::pushi(60),
        Instruction::pushi(50),
        Instruction::eq(),
        Instruction::pushi(40),
        Instruction::pushi(40),
        Instruction::eq(),
    ];
    let mut buffer = Vec::new();
    let program = Program { ops };
    vm.load_program(program);
    let status = vm.run(&mut buffer);
    let stack = vm.stack();
    assert_eq!(*stack, vec![Data::Int(0), Data::Int(1)]);
    assert_eq!(status, ExitStatus::Success);
    assert_eq!(buffer, b"")
}

#[test]
fn eq_int_float() {
    let mut vm = Interpreter::new();
    let ops = vec![
        Instruction::pushi(60),
        Instruction::pushf(dec("50.0")),
        Instruction::eq(),
        Instruction::pushf(dec("40.0")),
        Instruction::pushi(40),
        Instruction::eq(),
    ];
    let mut buffer = Vec::new();
    let program = Program { ops };
    vm.load_program(program);
    let status = vm.run(&mut buffer);
    let stack = vm.stack();
    assert_eq!(*stack, vec![Data::Int(0), Data::Int(1)]);
    assert_eq!(status, ExitStatus::Success);
    assert_eq!(buffer, b"")
}

#[test]
fn eq_float_float() {
    let mut vm = Interpreter::new();
    let ops = vec![
        Instruction::pushf(dec("50.0")),
        Instruction::pushf(dec("5.1")),
        Instruction::eq(),
        Instruction::pushf(dec("40.0")),
        Instruction::pushf(dec("40.0")),
        Instruction::eq(),
    ];
    let mut buffer = Vec::new();
    let program = Program { ops };
    vm.load_program(program);
    let status = vm.run(&mut buffer);
    let stack = vm.stack();
    assert_eq!(*stack, vec![Data::Int(0), Data::Int(1)]);
    assert_eq!(status, ExitStatus::Success);
    assert_eq!(buffer, b"")
}

#[test]
fn gr_int_int() {
    let mut vm = Interpreter::new();
    let ops = vec![
        Instruction::pushi(60),
        Instruction::pushi(50),
        Instruction::gr(),
        Instruction::pushi(40),
        Instruction::pushi(40),
        Instruction::gr(),
    ];
    let mut buffer = Vec::new();
    let program = Program { ops };
    vm.load_program(program);
    let status = vm.run(&mut buffer);
    let stack = vm.stack();
    assert_eq!(*stack, vec![Data::Int(1), Data::Int(0)]);
    assert_eq!(status, ExitStatus::Success);
    assert_eq!(buffer, b"")
}

#[test]
fn gr_int_float() {
    let mut vm = Interpreter::new();
    let ops = vec![
        Instruction::pushi(50),
        Instruction::pushf(dec("5.1")),
        Instruction::gr(),
        Instruction::pushf(dec("40.0")),
        Instruction::pushi(40),
        Instruction::gr(),
    ];
    let mut buffer = Vec::new();
    let program = Program { ops };
    vm.load_program(program);
    let status = vm.run(&mut buffer);
    let stack = vm.stack();
    assert_eq!(*stack, vec![Data::Int(1), Data::Int(0)]);
    assert_eq!(status, ExitStatus::Success);
    assert_eq!(buffer, b"")
}

#[test]
fn gr_float_float() {
    let mut vm = Interpreter::new();
    let ops = vec![
        Instruction::pushf(dec("50.0")),
        Instruction::pushf(dec("51.0")),
        Instruction::gr(),
        Instruction::pushf(dec("40.0")),
        Instruction::pushf(dec("41.0")),
        Instruction::gr(),
        Instruction::pushf(dec("4.11")),
        Instruction::pushf(dec("4.1")),
        Instruction::gr(),
    ];
    let mut buffer = Vec::new();
    let program = Program { ops };
    vm.load_program(program);
    let status = vm.run(&mut buffer);
    let stack = vm.stack();
    assert_eq!(*stack, vec![Data::Int(0), Data::Int(0), Data::Int(1)]);
    assert_eq!(status, ExitStatus::Success);
    assert_eq!(buffer, b"")
}

#[test]
fn less_int_int() {
    let mut vm = Interpreter::new();
    let ops = vec![
        Instruction::pushi(50),
        Instruction::pushi(60),
        Instruction::less(),
        Instruction::pushi(40),
        Instruction::pushi(40),
        Instruction::less(),
    ];
    let mut buffer = Vec::new();
    let program = Program { ops };
    vm.load_program(program);
    let status = vm.run(&mut buffer);
    let stack = vm.stack();
    assert_eq!(*stack, vec![Data::Int(1), Data::Int(0)]);
    assert_eq!(status, ExitStatus::Success);
    assert_eq!(buffer, b"")
}

#[test]
fn less_int_float() {
    let mut vm = Interpreter::new();
    let ops = vec![
        Instruction::pushi(40),
        Instruction::pushf(dec("41.0")),
        Instruction::less(),
        Instruction::pushf(dec("40.0")),
        Instruction::pushi(40),
        Instruction::less(),
    ];
    let mut buffer = Vec::new();
    let program = Program { ops };
    vm.load_program(program);
    let status = vm.run(&mut buffer);
    let stack = vm.stack();
    assert_eq!(*stack, vec![Data::Int(1), Data::Int(0)]);
    assert_eq!(status, ExitStatus::Success);
    assert_eq!(buffer, b"")
}

#[test]
fn less_float_float() {
    let mut vm = Interpreter::new();
    let ops = vec![
        Instruction::pushf(dec("4.89")),
        Instruction::pushf(dec("4.9")),
        Instruction::less(),
        Instruction::pushf(dec("40.0")),
        Instruction::pushf(dec("40.0")),
        Instruction::less(),
    ];
    let mut buffer = Vec::new();
    let program = Program { ops };
    vm.load_program(program);
    let status = vm.run(&mut buffer);
    let stack = vm.stack();
    assert_eq!(*stack, vec![Data::Int(1), Data::Int(0)]);
    assert_eq!(status, ExitStatus::Success);
    assert_eq!(buffer, b"");
}
